//! What is promised of swap and of the file system table.

use vstd::prelude::*;

use crate::cc::mounts::{default_fields, step_run, steps_run, swap_env, with_swap};
use crate::cc::mounts::devices::{
    current_fstab, is_block, is_wanted, known_path, partition_path, resolved, with_line, with_lines, FstabSpec,
};
use crate::cc::mounts::entries::{
    all_marked, any_row_of, any_swap, dirs_of, filled, is_row_of, line_of, lines_of, not_among, row_for, rows_for,
    spaced, table_steps, with_default, with_defaults,
};
use crate::cc::mounts::host::{
    ask_human2bytes, ask_path_exists, ask_read_file, Call, Host, StepSpec, SwapFacts, SwapMethod, Table,
};
use crate::cc::mounts::swap::{create_steps, existing, size_limit, suggested, swap_steps, wanted_size};
use crate::number::dec;
use crate::paths::parent;
use crate::pattern::{device_form, disk_form, drive_form, network_form};
use crate::show::{show, truthy};
use crate::space::{fold, text_lines, words, Class};
use crate::text::{ends, holds, join, starts};
use crate::value::{get, get_after_put, Val};

verus! {

// ---------------------------------------------------------------------------
// Swap

/// What is known of the size of a swap file: the number of bytes, how many whole
/// mebibytes they are, and the machine when it was found out.
pub struct SwapSize<H: Host> {
    pub bytes: u64,
    pub mebibytes: nat,
    pub at: Table<H>,
}

/// A swap file has as many mebibytes as there are whole ones in the size: the one that
/// is configured, as a number of bytes or as a text that the machine reads, or else
/// the one that is suggested for the memory and the room there are. It goes where the
/// configuration says, or to `/swap.img`.
pub proof fn a_swap_file_has_the_size_that_is_wanted<H: Host>(
    m: Table<H>,
    cfg: Seq<(Seq<char>, Val)>,
    env: SwapFacts,
    i: int,
) -> (r: SwapSize<H>)
    requires
        0 <= i < swap_steps::<H>(m, Val::Object(cfg), env).1.len(),
        swap_steps::<H>(m, Val::Object(cfg), env).1[i] is CreateSwap,
    ensures
        swap_steps::<H>(m, Val::Object(cfg), env).1[i] matches StepSpec::CreateSwap { path, mib, method, fstype } && {
            &&& mib == dec(r.mebibytes)
            &&& path == (match get(cfg, "filename"@) {
                Some(v) => show(v),
                None => "/swap.img"@,
            })
            &&& env.fstype == Some(fstype)
            &&& method == (if fstype == "xfs"@ && older_than_4_18(env.kernel_version) {
                SwapMethod::Dd
            } else {
                SwapMethod::Fallocate
            })
        },
        r.mebibytes * 1048576 <= r.bytes < (r.mebibytes + 1) * 1048576,
        0 < r.bytes,
        match get(cfg, "size"@) {
            Some(Val::Int(n)) => r.bytes == n,
            Some(Val::Text(s)) => if fold(s) == "auto"@ {
                exists|limit: Option<u64>, steps: Seq<StepSpec>|
                    env.memtotal is Some && (#[trigger] suggested::<H>(
                        r.at,
                        env.memtotal->0,
                        limit,
                        env.available,
                        steps,
                    )).2 == r.bytes
            } else {
                ask_human2bytes::<H>(r.at, s).1 == Ok::<u64, Seq<char>>(r.bytes)
            },
            _ => false,
        },
{
    let size = match get(cfg, "size"@) {
        Some(v) => v,
        None => Val::Int(0),
    };
    let path = match get(cfg, "filename"@) {
        Some(v) => show(v),
        None => "/swap.img"@,
    };
    let (m1, said, done) = existing::<H>(m, path);
    let s1 = match said {
        Some(step) => seq![step],
        None => Seq::empty(),
    };
    let (m2, limit) = size_limit::<H>(m1, get(cfg, "maxsize"@));
    let limit = limit->Ok_0;
    let (m3, s2, wanted) = wanted_size::<H>(m2, path, size, limit, env, s1);
    assert(wanted is Ok);
    let bytes = wanted->Ok_0->0;
    let (s3, made) = create_steps(path, dec((bytes / 1048576) as nat), env, s2);
    let all = swap_steps::<H>(m, Val::Object(cfg), env).1;
    assert(forall|j: int| 0 <= j < s2.len() ==> !(#[trigger] s2[j] is CreateSwap));
    let x = StepSpec::CreateSwap {
        path,
        mib: dec((bytes / 1048576) as nat),
        method: SwapMethod::Dd,
        fstype: env.fstype->0,
    };
    assert(all[i] == s3[i]);
    SwapSize { bytes, mebibytes: (bytes / 1048576) as nat, at: m2 }
}

/// Whether a kernel's version comes before 4.18.
pub open spec fn older_than_4_18(version: Seq<u32>) -> bool {
    match (version.len() > 0, version.len() > 1) {
        (false, _) => true,
        (true, false) => version[0] <= 4,
        (true, true) => version[0] < 4 || (version[0] == 4 && version[1] < 18),
    }
}

/// The size that is suggested where there is no limit and the room is not known: as
/// much as the memory up to four gibibytes of it, four gibibytes below sixteen, and
/// from there as many gibibytes as the machine says are the root of the memory's.
pub proof fn the_size_for_a_memory<H: Host>(m: Table<H>, memory: u64, steps: Seq<StepSpec>)
    ensures
        memory < 4294967296 ==> suggested::<H>(m, memory, None, None, steps).2 == memory,
        4294967296 <= memory < 17179869184 ==> suggested::<H>(m, memory, None, None, steps).2 == 4294967296,
        17179869184 <= memory <= 0x7fff_ffff_ffff_ffff ==> {
            let root = H::reply(m.world, Call::Root(memory)).1->Number_0;
            suggested::<H>(m, memory, None, None, steps).2 == (if root * 1073741824 < 2 * memory {
                root * 1073741824
            } else {
                2 * memory
            })
        },
{
    let root = H::reply(m.world, Call::Root(memory)).1->Number_0;
    assert(root > u64::MAX / 1073741824 ==> root * 1073741824 > u64::MAX);
}

/// The size that is suggested is never more than a limit that fits the room, and it
/// is never more than a quarter of the room where there is no limit.
pub proof fn a_suggestion_keeps_to_its_limits<H: Host>(
    m: Table<H>,
    memory: u64,
    limit: Option<u64>,
    room: Option<u64>,
    steps: Seq<StepSpec>,
)
    ensures
        suggested::<H>(m, memory, limit, room, steps).2 <= (match (limit, room) {
            (Some(most), None) => most,
            (Some(most), Some(whole)) => {
                let over = H::reply(m.world, Call::OverNinety { size: most, whole });
                if over.1->Flag_0 {
                    H::reply(over.0, Call::Ninety(whole)).1->Number_0
                } else {
                    most
                }
            },
            (None, Some(whole)) => H::reply(m.world, Call::Quarter(whole)).1->Number_0,
            (None, None) => u64::MAX,
        }),
        memory < 17179869184 ==> suggested::<H>(m, memory, limit, room, steps).2 <= memory,
        memory < 4294967296 && limit is Some && room is None ==> suggested::<H>(m, memory, limit, room, steps).2 == (
        if limit->0 < memory {
            limit->0
        } else {
            memory
        }),
{
}

/// The steps for a swap file are, in this order: its directory, on btrfs an empty file
/// that is not copied on writing, the file itself, its mode and its signature.
pub proof fn a_swap_file_is_made_in_order(path: Seq<char>, mib: Seq<char>, env: SwapFacts, steps: Seq<StepSpec>)
    requires
        env.fstype is Some,
    ensures
        ({
            let all = create_steps(path, mib, env, steps).0;
            let n = steps.len() as int;
            let k = all.len() as int;
            &&& create_steps(path, mib, env, steps).1 is Ok
            &&& all.take(n) == steps
            &&& all[n] == StepSpec::EnsureDir(parent(path))
            &&& env.fstype == Some("btrfs"@) ==> k == n + 6 && all[n + 1] == StepSpec::BtrfsPrepare(path)
            &&& env.fstype != Some("btrfs"@) ==> k == n + 5
            &&& all[k - 4] is Debug
            &&& all[k - 3] matches StepSpec::CreateSwap { path: p, mib: b, .. } && p == path && b == mib
            &&& all[k - 2] == StepSpec::ChmodSwap(path)
            &&& all[k - 1] == StepSpec::Mkswap(path)
        }),
{
    let all = create_steps(path, mib, env, steps).0;
    assert(all.take(steps.len() as int) =~= steps);
}

/// A swap file that is there and in use, or of which that cannot be told, is left as it
/// is, and it is still entered.
pub proof fn a_swap_file_in_use_is_left_alone<H: Host>(
    m: Table<H>,
    cfg: Seq<(Seq<char>, Val)>,
    env: SwapFacts,
    path: Seq<char>,
)
    requires
        path == (match get(cfg, "filename"@) {
            Some(v) => show(v),
            None => "/swap.img"@,
        }),
        get(cfg, "filename"@) matches Some(v) ==> truthy(v),
        get(cfg, "size"@) matches Some(v) && truthy(v),
        ask_path_exists::<H>(m, path).1,
        ({
            let (m1, listed) = ask_path_exists::<H>(ask_path_exists::<H>(m, path).0, "/proc/swaps"@);
            let text = ask_read_file::<H>(m1, "/proc/swaps"@).1;
            !listed || text is None || exists|i: int|
                0 <= i < text_lines(text->0).len() && starts(#[trigger] text_lines(text->0)[i], path + " "@)
        }),
    ensures
        swap_steps::<H>(m, Val::Object(cfg), env).2 == Some(path),
        forall|i: int|
            0 <= i < swap_steps::<H>(m, Val::Object(cfg), env).1.len() ==> {
                let step = #[trigger] swap_steps::<H>(m, Val::Object(cfg), env).1[i];
                step is Debug || step is Warning
            },
{
    reveal_strlit("/swap.img");
}

/// No swap is made where no size is configured, or none but zero.
pub proof fn no_size_makes_no_swap<H: Host>(m: Table<H>, cfg: Seq<(Seq<char>, Val)>, env: SwapFacts)
    requires
        get(cfg, "size"@) is None || get(cfg, "size"@) == Some(Val::Int(0)),
    ensures
        swap_steps::<H>(m, Val::Object(cfg), env) == (
            m,
            seq![StepSpec::Debug("no need to setup swap"@)],
            None::<Seq<char>>,
        ),
{
}

/// On the machine itself a swap file is laid down by `fallocate` with its size in
/// mebibytes. Where that fails, what it left is removed, and `dd` copies as many blocks
/// of a mebibyte; where `dd` fails too, what it left is removed.
pub proof fn the_commands_that_lay_down_a_swap_file<H: Host>(m: Table<H>, path: Seq<char>, mib: Seq<char>, fstype: Seq<char>)
    ensures
        ({
            let step = StepSpec::CreateSwap { path, mib, method: SwapMethod::Fallocate, fstype };
            let (after, done) = step_run::<H>(m, step, true);
            let first = Call::Subp(seq!["fallocate"@, "-l"@, mib + "M"@, path]);
            let second = Call::Subp(seq!["dd"@, "if=/dev/zero"@, "of="@ + path, "bs=1M"@, "count="@ + mib]);
            let n = m.calls.len() as int;
            &&& after.calls[n] == first
            &&& H::reply(m.world, first).1->Done_0 is Ok ==> done is Ok && after.calls == m.calls.push(first)
            &&& H::reply(m.world, first).1->Done_0 is Err ==> {
                &&& after.calls[n + 2] == Call::RemoveFile(path)
                &&& after.calls[n + 5] == second
                &&& done is Ok ==> after.calls.len() == n + 6
                &&& done is Err ==> after.calls.len() == n + 8 && after.calls.last() == Call::RemoveFile(path)
            }
        }),
        ({
            let step = StepSpec::CreateSwap { path, mib, method: SwapMethod::Dd, fstype };
            let (after, done) = step_run::<H>(m, step, true);
            let only = Call::Subp(seq!["dd"@, "if=/dev/zero"@, "of="@ + path, "bs=1M"@, "count="@ + mib]);
            let n = m.calls.len() as int;
            &&& after.calls[n] == only
            &&& done is Ok ==> after.calls == m.calls.push(only)
            &&& done is Err ==> after.calls.last() == Call::RemoveFile(path)
        }),
{
}

/// What each of the other steps asks of the machine itself.
pub proof fn the_commands_of_the_steps<H: Host>(m: Table<H>, path: Seq<char>, text: Seq<char>, dirs: Seq<Seq<char>>)
    ensures
        step_run::<H>(m, StepSpec::EnsureDir(path), true).0.calls == m.calls.push(Call::EnsureDir(path)),
        step_run::<H>(m, StepSpec::ChmodSwap(path), true).0.calls == m.calls.push(Call::Chmod(path)),
        step_run::<H>(m, StepSpec::BtrfsPrepare(path), true).1 is Ok ==> step_run::<H>(
            m,
            StepSpec::BtrfsPrepare(path),
            true,
        ).0.calls == m.calls.push(Call::Subp(seq!["truncate"@, "-s"@, "0"@, path])).push(
            Call::Subp(seq!["chattr"@, "+C"@, path]),
        ),
        ({
            let (after, done) = step_run::<H>(m, StepSpec::Mkswap(path), true);
            let made = m.calls.push(Call::Subp(seq!["mkswap"@, path]));
            after.calls == if done is Ok {
                made
            } else {
                made.push(Call::RemoveFile(path))
            }
        }),
        step_run::<H>(m, StepSpec::WriteFstab(text), true).0.calls == m.calls.push(
            Call::WriteFile { path: "/etc/fstab"@, content: text },
        ),
        step_run::<H>(m, StepSpec::SwapOn, true).0.calls == m.calls.push(Call::Subp(seq!["swapon"@, "-a"@])),
        ({
            let step = StepSpec::MountAll { daemon_reload: false, changes_made: true, dirs };
            step_run::<H>(m, step, true).0.calls == m.calls.push(Call::Subp(seq!["mount"@, "-a"@]))
        }),
        ({
            let step = StepSpec::MountAll { daemon_reload: true, changes_made: true, dirs };
            let (after, done) = step_run::<H>(m, step, true);
            let mounted = m.calls.push(Call::Subp(seq!["mount"@, "-a"@]));
            &&& H::reply(m.world, Call::Subp(seq!["mount"@, "-a"@])).1->Done_0 is Ok ==> after.calls == mounted.push(
                Call::Subp(seq!["systemctl"@, "daemon-reload"@]),
            )
            &&& H::reply(m.world, Call::Subp(seq!["mount"@, "-a"@])).1->Done_0 is Err ==> after.calls == mounted && done is Err
        }),
{
}

// ---------------------------------------------------------------------------
// Rows

/// A field of a row is the configured one as it is printed, and the default where
/// nothing is configured or the row ends before it.
pub proof fn a_row_is_filled_field_by_field(row: Seq<Val>, defaults: Seq<Val>, i: int)
    requires
        filled(row, defaults) is Ok,
        0 <= i < row.len() || 0 <= i < defaults.len(),
    ensures
        ({
            let full = filled(row, defaults)->Ok_0;
            &&& full.len() == if row.len() < defaults.len() {
                defaults.len()
            } else {
                row.len()
            }
            &&& i < row.len() && row[i] !is Null ==> full[i] == Val::Text(show(row[i]))
            &&& (i < row.len() && row[i] is Null) || i >= row.len() ==> full[i] == defaults[i]
        }),
{
}

/// Unless the configuration has others, the default fields are the type `auto`, options
/// by which a failure to mount does not stop the boot, no dump and the second pass.
pub proof fn the_default_fields(cfg: Seq<(Seq<char>, Val)>, systemd: bool)
    ensures
        get(cfg, "mount_default_fields"@) !is Some ==> {
            let fields = default_fields(cfg, systemd);
            &&& fields.len() == 6
            &&& fields[0] is Null && fields[1] is Null
            &&& fields[2] == Val::Text("auto"@)
            &&& fields[3] == Val::Text(
                if systemd {
                    "defaults,nofail,x-systemd.after=cloud-init-network.service,_netdev"@
                } else {
                    "defaults,nobootwait"@
                },
            )
            &&& fields[4] == Val::Text("0"@)
            &&& fields[5] == Val::Text("2"@)
        },
        forall|fields: Seq<Val>|
            get(cfg, "mount_default_fields"@) == Some(Val::Array(fields)) ==> #[trigger] default_fields(cfg, systemd)
                == fields,
{
}

/// The rows that are added where the machine has such devices: the first ephemeral disk
/// on `/mnt`, and swap on none.
pub proof fn the_default_rows<H: Host>(
    m: Table<H>,
    mounts: Seq<Seq<Val>>,
    options: Seq<char>,
    devs: Seq<(Seq<char>, Val)>,
    devices: Seq<(Seq<char>, Seq<char>)>,
    aliases: Seq<(Seq<char>, Val)>,
    steps: Seq<StepSpec>,
    i: int,
)
    requires
        mounts.len() <= i < with_defaults::<H>(m, mounts, options, devs, devices, aliases, steps).2.len(),
    ensures
        ({
            let rows = with_defaults::<H>(m, mounts, options, devs, devices, aliases, steps).2;
            let row = rows[i];
            &&& rows.len() <= mounts.len() + 2
            &&& rows.take(mounts.len() as int) == mounts
            &&& row.len() == 6
            &&& row[0] is Text
            &&& get(devs, row[0]->Text_0) is None
            &&& forall|j: int| 0 <= j < mounts.len() && mounts[j].len() > 0 ==> #[trigger] mounts[j][0] != row[0]
            &&& {
                ||| i == mounts.len() && row[1] == Val::Text("/mnt"@) && row[2] == Val::Text("auto"@) && row[3]
                    == Val::Text(options) && row[4] == Val::Text("0"@) && row[5] == Val::Text("2"@)
                ||| i + 1 == rows.len() && row[1] == Val::Text("none"@) && row[2] == Val::Text("swap"@) && row[3]
                    == Val::Text("sw"@) && row[4] == Val::Text("0"@) && row[5] == Val::Text("0"@)
            }
        }),
{
    let rows = with_defaults::<H>(m, mounts, options, devs, devices, aliases, steps).2;
    assert(rows.take(mounts.len() as int) =~= mounts);
    assert forall|j: int| 0 <= j < mounts.len() && mounts[j].len() > 0 implies #[trigger] mounts[j][0] != rows[i][0] by {
        assert(!is_row_of(mounts[j], rows[i][0]->Text_0));
    }
}

/// A swap file that was made gets the row of a swap file, behind the others.
pub proof fn the_row_of_a_swap_file(mounts: Seq<Seq<Val>>, path: Seq<char>)
    ensures
        with_swap(mounts, None) == mounts,
        with_swap(mounts, Some(path)) == mounts.push(
            seq![
                Val::Text(path),
                Val::Text("none"@),
                Val::Text("swap"@),
                Val::Text("sw"@),
                Val::Text("0"@),
                Val::Text("0"@),
            ],
        ),
{
    assert(with_swap(mounts, Some(path)).last() =~= seq![
        Val::Text(path),
        Val::Text("none"@),
        Val::Text("swap"@),
        Val::Text("sw"@),
        Val::Text("0"@),
        Val::Text("0"@),
    ]);
}

/// The mark goes behind the options of a row, and nothing else of it changes.
pub proof fn only_the_options_are_marked(mounts: Seq<Seq<Val>>)
    requires
        all_marked(mounts) is Ok,
    ensures
        all_marked(mounts)->Ok_0.len() == mounts.len(),
        forall|i: int| #![trigger all_marked(mounts)->Ok_0[i]]
            0 <= i < mounts.len() ==> {
                let row = all_marked(mounts)->Ok_0[i];
                &&& row.len() == mounts[i].len()
                &&& row[3] == Val::Text(show(mounts[i][3]) + ",comment=cloudconfig"@)
                &&& forall|j: int| 0 <= j < row.len() && j != 3 ==> #[trigger] row[j] == mounts[i][j]
            },
    decreases mounts.len(),
{
    if mounts.len() > 0 {
        only_the_options_are_marked(mounts.drop_last());
    }
}

// ---------------------------------------------------------------------------
// The table

/// The texts of a row.
pub open spec fn row_texts(row: Seq<Val>, n: int) -> Seq<Seq<char>> {
    Seq::new(n as nat, |i: int| row[i]->Text_0)
}

proof fn a_line_is_joined(row: Seq<Val>, n: int)
    requires
        0 <= n <= row.len(),
        line_of(row, n) is Ok,
    ensures
        forall|i: int| 0 <= i < n ==> #[trigger] row[i] is Text,
        line_of(row, n)->Ok_0 == join(row_texts(row, n), "\t"@),
    decreases n,
{
    if n > 0 {
        a_line_is_joined(row, n - 1);
        assert(row_texts(row, n).drop_last() =~= row_texts(row, n - 1));
    }
}

proof fn lines_are_joined(mounts: Seq<Seq<Val>>, out: Seq<Seq<char>>)
    requires
        lines_of(mounts, out) is Ok,
    ensures
        ({
            let lines = lines_of(mounts, out)->Ok_0;
            &&& lines.len() == out.len() + mounts.len()
            &&& forall|i: int| 0 <= i < out.len() ==> #[trigger] lines[i] == out[i]
            &&& forall|i: int| #![trigger mounts[i]]
                0 <= i < mounts.len() ==> lines[out.len() + i] == join(
                    row_texts(mounts[i], mounts[i].len() as int),
                    "\t"@,
                )
        }),
    decreases mounts.len(),
{
    if mounts.len() > 0 {
        let line = line_of(mounts[0], mounts[0].len() as int)->Ok_0;
        a_line_is_joined(mounts[0], mounts[0].len() as int);
        lines_are_joined(mounts.skip(1), out.push(line));
        let lines = lines_of(mounts, out)->Ok_0;
        assert forall|i: int| 0 <= i < out.len() implies #[trigger] lines[i] == out[i] by {
            assert(lines[i] == out.push(line)[i]);
        }
        assert forall|i: int| #![trigger mounts[i]] 0 <= i < mounts.len() implies lines[out.len() + i] == join(
            row_texts(mounts[i], mounts[i].len() as int),
            "\t"@,
        ) by {
            if i == 0 {
                assert(lines[out.len() as int] == out.push(line)[out.len() as int]);
            } else {
                assert(mounts.skip(1)[i - 1] == mounts[i]);
                assert(lines[out.push(line).len() + (i - 1)] == lines[out.len() + i]);
            }
        }
    }
}

proof fn swap_is_looked_for(mounts: Seq<Seq<Val>>, known: bool)
    requires
        any_swap(mounts, known) is Ok,
    ensures
        any_swap(mounts, known)->Ok_0 == (known || exists|i: int|
            0 <= i < mounts.len() && #[trigger] mounts[i][2] == Val::Text("swap"@)),
    decreases mounts.len(),
{
    if mounts.len() > 0 {
        let rest = mounts.skip(1);
        swap_is_looked_for(rest, known || mounts[0][2] == Val::Text("swap"@));
        assert forall|i: int| 0 <= i < mounts.len() && #[trigger] mounts[i][2] == Val::Text("swap"@) && i > 0 implies rest[i
            - 1][2] == Val::Text("swap"@) by {}
        assert forall|i: int| 0 <= i < rest.len() && #[trigger] rest[i][2] == Val::Text("swap"@) implies mounts[i + 1][2]
            == Val::Text("swap"@) by {}
    }
}

proof fn directories_are_mount_points(mounts: Seq<Seq<Val>>, out: Seq<Seq<char>>, dir: Seq<char>)
    requires
        dirs_of(mounts, out) is Ok,
    ensures
        dirs_of(mounts, out)->Ok_0.contains(dir) <==> out.contains(dir) || (starts(dir, "/"@) && exists|i: int|
            0 <= i < mounts.len() && #[trigger] mounts[i][1] == Val::Text(dir)),
    decreases mounts.len(),
{
    if mounts.len() > 0 {
        let rest = mounts.skip(1);
        let s = mounts[0][1]->Text_0;
        let next = if starts(s, "/"@) {
            out.push(s)
        } else {
            out
        };
        directories_are_mount_points(rest, next, dir);
        assert(out.contains(dir) ==> next.contains(dir)) by {
            if out.contains(dir) {
                let k = choose|k: int| 0 <= k < out.len() && out[k] == dir;
                assert(next[k] == dir);
            }
        }
        assert(starts(s, "/"@) ==> next[out.len() as int] == s);
        assert(next.contains(dir) ==> out.contains(dir) || (starts(s, "/"@) && dir == s)) by {
            if next.contains(dir) {
                let k = choose|k: int| 0 <= k < next.len() && next[k] == dir;
                if k < out.len() {
                    assert(out[k] == dir);
                }
            }
        }
        assert forall|i: int| 0 <= i < mounts.len() && #[trigger] mounts[i][1] == Val::Text(dir) && i > 0 implies rest[i
            - 1][1] == Val::Text(dir) by {}
        assert forall|i: int| 0 <= i < rest.len() && #[trigger] rest[i][1] == Val::Text(dir) implies mounts[i + 1][1]
            == Val::Text(dir) by {}
    }
}

proof fn none_are_missing(lines: Seq<Seq<char>>, others: Seq<Seq<char>>, sign: Seq<char>, out: Seq<Val>)
    ensures
        not_among(lines, others, sign, out).len() >= out.len(),
        not_among(lines, others, sign, out).len() == out.len() <==> forall|i: int|
            0 <= i < lines.len() ==> others.contains(#[trigger] lines[i]),
    decreases lines.len(),
{
    if lines.len() > 0 {
        let before = lines.drop_last();
        none_are_missing(before, others, sign, out);
        assert(forall|i: int| 0 <= i < before.len() ==> before[i] == lines[i]);
        if forall|i: int| 0 <= i < lines.len() ==> others.contains(#[trigger] lines[i]) {
            assert forall|i: int| 0 <= i < before.len() implies others.contains(#[trigger] before[i]) by {
                assert(before[i] == lines[i]);
            }
            assert(others.contains(lines.last()));
        } else if others.contains(lines.last()) {
            let i = choose|i: int| 0 <= i < lines.len() && !others.contains(#[trigger] lines[i]);
            assert(before[i] == lines[i]);
        }
    }
}

/// The steps for rows: the mount points that are paths are made, then the table is
/// written, with what was in it before and a line for each row, whose fields stand
/// with tabs between them; swap is turned on where a row is for it; and everything is
/// mounted, where the lines that were written here before are not the same up to tabs.
pub proof fn the_table_is_written_from_the_rows(mounts: Seq<Seq<Val>>, fstab: FstabSpec, systemd: bool) -> (r: (
    Seq<Seq<char>>,
    Seq<Seq<char>>,
))
    requires
        mounts.len() > 0,
        table_steps(mounts, fstab, systemd) is Ok,
    ensures
        r.0.len() == mounts.len(),
        forall|i: int| #![trigger mounts[i]]
            0 <= i < mounts.len() ==> r.0[i] == join(row_texts(mounts[i], mounts[i].len() as int), "\t"@),
        forall|dir: Seq<char>| #[trigger]
            r.1.contains(dir) <==> starts(dir, "/"@) && exists|i: int|
                0 <= i < mounts.len() && #[trigger] mounts[i][1] == Val::Text(dir),
        ({
            let steps = table_steps(mounts, fstab, systemd)->Ok_0;
            let n = r.1.len() as int;
            let swap = exists|i: int| 0 <= i < mounts.len() && #[trigger] mounts[i][2] == Val::Text("swap"@);
            &&& forall|i: int| 0 <= i < n ==> #[trigger] steps[i] == StepSpec::EnsureConfigDir(r.1[i])
            &&& steps[n] == StepSpec::WriteFstab(join(fstab.lines + r.0, "\n"@) + "\n"@)
            &&& steps[n + 1] is Debug
            &&& swap ==> steps.len() == n + 4 && steps[n + 2] == StepSpec::SwapOn
            &&& !swap ==> steps.len() == n + 3
            &&& steps.last() matches StepSpec::MountAll { daemon_reload, changes_made, dirs } && {
                &&& daemon_reload == systemd
                &&& dirs == r.1
                &&& !changes_made <==> {
                    &&& forall|i: int| 0 <= i < fstab.removed.len() ==> spaced(r.0).contains(#[trigger] spaced(fstab.removed)[i])
                    &&& forall|i: int| 0 <= i < r.0.len() ==> spaced(fstab.removed).contains(#[trigger] spaced(r.0)[i])
                }
            }
        }),
{
    let added = lines_of(mounts, Seq::empty())->Ok_0;
    let dirs = dirs_of(mounts, Seq::empty())->Ok_0;
    lines_are_joined(mounts, Seq::empty());
    swap_is_looked_for(mounts, false);
    assert forall|dir: Seq<char>| #[trigger]
        dirs.contains(dir) <==> starts(dir, "/"@) && exists|i: int|
            0 <= i < mounts.len() && #[trigger] mounts[i][1] == Val::Text(dir) by {
        directories_are_mount_points(mounts, Seq::empty(), dir);
    }
    let gone = not_among(spaced(fstab.removed), spaced(added), "- "@, Seq::empty());
    none_are_missing(spaced(fstab.removed), spaced(added), "- "@, Seq::empty());
    none_are_missing(spaced(added), spaced(fstab.removed), "+ "@, gone);
    (added, dirs)
}

/// A line of the table with the mark is taken out, a blank one is dropped, and any other
/// is kept as it is, under its first word.
pub proof fn a_line_of_the_table_is_sorted(table: FstabSpec, line: Seq<char>)
    ensures
        ({
            let after = with_line(table, line);
            let first = words(Class::Space, line);
            if holds(line, "comment=cloudconfig"@) {
                after.removed == table.removed.push(line) && after.lines == table.lines && after.devs == table.devs
            } else {
                &&& after.removed == table.removed
                &&& first.len() == 0 ==> after.lines == table.lines && after.devs == table.devs
                &&& first.len() > 0 ==> after.lines == table.lines.push(line) && get(after.devs, first[0]) == Some(
                    Val::Text(line),
                )
            }
        }),
{
    let first = words(Class::Space, line);
    if first.len() > 0 {
        get_after_put(table.devs, first[0], Val::Text(line), first[0]);
    }
}

// ---------------------------------------------------------------------------
// Devices

/// The path of a partition is the device's name with the number behind it, or with a
/// `p` between them, or with `-part`; it is the first of these that exists.
pub proof fn a_partition_has_one_of_three_names<H: Host>(m: Table<H>, device: Seq<char>, number: Seq<char>)
    ensures
        ({
            let (after, path) = partition_path::<H>(m, device, number);
            let a = device + number;
            let b = device + "p"@ + number;
            let c = device + "-part"@ + number;
            let (w1, first) = H::reply(m.world, Call::Exists(a));
            let (w2, second) = H::reply(w1, Call::Exists(b));
            let (w3, third) = H::reply(w2, Call::Exists(c));
            path == if first->Flag_0 {
                Some(a)
            } else if second->Flag_0 {
                Some(b)
            } else if third->Flag_0 {
                Some(c)
            } else {
                None
            }
        }),
{
}

/// A device that the table has already is not written again, and neither is one that
/// there is not.
pub proof fn a_device_is_written_once(start: Seq<char>, device: Option<Seq<char>>, devs: Seq<(Seq<char>, Val)>, steps: Seq<StepSpec>)
    ensures
        is_wanted(start, device, devs, steps).1 <==> device is Some && get(devs, device->0) is None,
{
}

/// A network address stands for itself, and the machine is not asked.
pub proof fn a_network_address_stands_for_itself<H: Host>(
    m: Table<H>,
    start: Seq<char>,
    devices: Seq<(Seq<char>, Seq<char>)>,
    aliases: Seq<(Seq<char>, Val)>,
    steps: Seq<StepSpec>,
)
    requires
        network_form(start),
    ensures
        resolved::<H>(m, start, devices, aliases, steps).0 == m,
        resolved::<H>(m, start, devices, aliases, steps).2 == Some(start),
{
}

/// The table is read line by line, in order.
pub proof fn the_table_is_read_in_order(lines: Seq<Seq<char>>, line: Seq<char>)
    ensures
        with_lines(lines.push(line)) == with_line(
            with_lines(lines),
            line,
        ),
        with_lines(Seq::empty()).lines.len() == 0,
        with_lines(Seq::empty()).removed.len() == 0,
        with_lines(Seq::empty()).devs.len() == 0,
{
    assert(lines.push(line).drop_last() =~= lines);
}

/// The table is the one in `/etc`, and one that is not there is empty.
pub proof fn where_the_table_is<H: Host>(m: Table<H>)
    ensures
        ({
            let (m1, table) = current_fstab::<H>(m);
            let ask = Call::Exists("/etc/fstab"@);
            let n = m.calls.len() as int;
            let (w, a) = H::reply(m.world, ask);
            &&& m1.calls[n] == ask
            &&& !a->Flag_0 ==> m1.calls.len() == n + 1 && table.lines.len() == 0 && table.removed.len() == 0
                && table.devs.len() == 0
            &&& a->Flag_0 ==> m1.calls.len() == n + 2 && m1.calls[n + 1] == Call::ReadFile("/etc/fstab"@)
        }),
{
}

/// The names that a device can have without a directory: of disks and of drives.
pub proof fn the_short_names_of_devices(letter: char, number: Seq<char>)
    requires
        'a' <= letter <= 'z',
        forall|i: int| 0 <= i < number.len() ==> '0' <= #[trigger] number[i] <= '9',
    ensures
        device_form(seq!['s', 'd', letter] + number),
        device_form(seq!['h', 'd', letter] + number),
        device_form(seq!['v', 'd', letter] + number),
        device_form(seq!['x', 'v', 'd', letter] + number),
        number.len() > 0 ==> device_form(seq!['s', 'r'] + number),
        !device_form(seq!['/'] + number),
{
    let a = seq!['s', 'd', letter] + number;
    let b = seq!['h', 'd', letter] + number;
    let c = seq!['v', 'd', letter] + number;
    let d = seq!['x', 'v', 'd', letter] + number;
    let e = seq!['s', 'r'] + number;
    assert(number.len() > 0 ==> '0' <= number[number.len() - 1] <= '9');
    assert(a.last() != '\n' && b.last() != '\n' && c.last() != '\n' && d.last() != '\n');
    assert(disk_form(a));
    assert(disk_form(b));
    assert(disk_form(c));
    assert(d.skip(1) =~= c);
    assert(disk_form(d)) by {
        assert(d[0] == 'x');
        let t = d.skip(1);
        assert forall|i: int| 3 <= i < t.len() implies '0' <= #[trigger] t[i] <= '9' by {
            assert(t[i] == number[i - 3]);
        }
    }
    if number.len() > 0 {
        assert(e.last() != '\n');
        assert(drive_form(e));
    }
}

/// A row keeps its fields behind the device, and has the device's path where that is to
/// be written.
pub proof fn a_row_gets_the_path_of_its_device<H: Host>(
    m: Table<H>,
    items: Seq<Val>,
    devs: Seq<(Seq<char>, Val)>,
    devices: Seq<(Seq<char>, Seq<char>)>,
    aliases: Seq<(Seq<char>, Val)>,
    defaults: Seq<Val>,
    steps: Seq<StepSpec>,
    path: Seq<char>,
)
    requires
        items.len() > 0,
        resolved::<H>(m, show(items[0]), devices, aliases, steps).2 == Some(path),
    ensures
        ({
            let (m1, s1, device) = resolved::<H>(m, show(items[0]), devices, aliases, steps);
            let wanted = is_wanted(show(items[0]), device, devs, s1).1;
            let (m2, s2, r) = row_for::<H>(m, items, devs, devices, aliases, defaults, steps);
            &&& m2 == m1
            &&& wanted ==> r == filled(items.update(0, Val::Text(path)), defaults)
            &&& !wanted ==> r == filled(items, defaults)
        }),
{
    assert(seq![Val::Text(path)] + items.skip(1) =~= items.update(0, Val::Text(path)));
}

/// An entry that is no list is passed over with a warning; the others are rows in order.
pub proof fn what_is_no_list_is_passed_over<H: Host>(
    m: Table<H>,
    word: Seq<char>,
    entries: Seq<Val>,
    devs: Seq<(Seq<char>, Val)>,
    devices: Seq<(Seq<char>, Seq<char>)>,
    aliases: Seq<(Seq<char>, Val)>,
    defaults: Seq<Val>,
    steps: Seq<StepSpec>,
    items: Seq<Val>,
    out: Seq<Seq<Val>>,
)
    ensures
        rows_for::<H>(
            m,
            seq![Val::Text(word)] + entries,
            devs,
            devices,
            aliases,
            defaults,
            steps,
            out,
        ) == rows_for::<H>(
            m,
            entries,
            devs,
            devices,
            aliases,
            defaults,
            steps.push(StepSpec::Warning("Mount option not a list, ignoring: "@ + word)),
            out,
        ),
        ({
            let (m1, s1, row) = row_for::<H>(m, items, devs, devices, aliases, defaults, steps);
            row is Ok ==> rows_for::<H>(
                m,
                seq![Val::Array(items)] + entries,
                devs,
                devices,
                aliases,
                defaults,
                steps,
                out,
            ) == rows_for::<H>(
                m1,
                entries,
                devs,
                devices,
                aliases,
                defaults,
                s1,
                out.push(row->Ok_0),
            )
        }),
{
    let a = seq![Val::Text(word)] + entries;
    assert(a[0] == Val::Text(word));
    assert(a.skip(1) =~= entries);
    let b = seq![Val::Array(items)] + entries;
    assert(b[0] == Val::Array(items));
    assert(b.skip(1) =~= entries);
}

/// A default row is added where its device is to be written and no row is for it yet.
pub proof fn a_default_row_is_added_once<H: Host>(
    m: Table<H>,
    mounts: Seq<Seq<Val>>,
    start: Seq<char>,
    rest: Seq<Val>,
    devs: Seq<(Seq<char>, Val)>,
    devices: Seq<(Seq<char>, Seq<char>)>,
    aliases: Seq<(Seq<char>, Val)>,
    steps: Seq<StepSpec>,
    out: Seq<Seq<Val>>,
)
    ensures
        ({
            let (m1, s1, device) = resolved::<H>(m, start, devices, aliases, steps);
            let wanted = is_wanted(start, device, devs, s1).1;
            let r = with_default::<H>(
                m,
                mounts,
                start,
                rest,
                devs,
                devices,
                aliases,
                steps,
                out,
            ).2;
            &&& !wanted ==> r == out
            &&& wanted && any_row_of(mounts, device->0) ==> r == out
            &&& wanted && !any_row_of(mounts, device->0) ==> r.len() == out.len() + 1
                && r.last().len() == rest.len() + 1 && r.last()[0] == Val::Text(device->0) && r.last().skip(1) == rest
        }),
{
    let (m1, s1, device) = resolved::<H>(m, start, devices, aliases, steps);
    assert((seq![Val::Text(device->0)] + rest).skip(1) =~= rest);
}

/// A device that is named with a partition is that partition, and must be there.
pub proof fn a_partition_must_be_there<H: Host>(m: Table<H>, device: Seq<char>, number: Seq<char>)
    ensures
        ({
            let (m1, path) = partition_path::<H>(m, device, number);
            let (m2, r) = known_path::<H>(m, device, Some(number));
            &&& path is None ==> r is None && m2 == m1
            &&& path is Some ==> r is None || r == path
        }),
        ({
            let (m1, path) = partition_path::<H>(m, device, "1"@);
            let (m2, r) = known_path::<H>(m, device, None);
            &&& path is None ==> r is None || r == Some(device)
            &&& path is Some ==> r is None || r == path
        }),
{
}

/// A device is known where the kernel lists it, and a partition below its disk.
pub proof fn where_the_kernel_lists_devices<H: Host>(m: Table<H>, device: Seq<char>, partition: Seq<char>)
    ensures
        ({
            let (m1, r) = is_block::<H>(m, device, None);
            let name = H::reply(m.world, Call::RealName(device)).1->Text_0;
            let n = m.calls.len() as int;
            &&& m1.calls[n] == Call::RealName(device)
            &&& name.len() > 0 && name[0] != '/' ==> m1.calls == m.calls.push(Call::RealName(device)).push(
                Call::Exists("/sys/block"@ + "/"@ + name),
            )
        }),
        ({
            let (m1, r) = is_block::<H>(m, device, Some(partition));
            let n = m.calls.len() as int;
            m1.calls.len() == n + 3 && m1.calls[n] == Call::RealName(device) && m1.calls[n + 1] == Call::RealName(
                partition,
            ) && m1.calls[n + 2] is Exists
        }),
{
    reveal_strlit("/");
    reveal_strlit("/sys/block");
    let name = H::reply(m.world, Call::RealName(device)).1->Text_0;
    if name.len() > 0 && name[0] != '/' {
        if starts(name, "/"@) {
            assert(name.subrange(0, 1)[0] == '/');
        }
        let base = "/sys/block"@;
        if ends(base, "/"@) {
            assert(base.subrange(base.len() - 1, base.len() as int)[0] == '/');
        }
    }
}

/// Steps are carried out in order, and the first failure ends it.
pub proof fn one_step_after_the_other<H: Host>(m: Table<H>, steps: Seq<StepSpec>, step: StepSpec, live: bool)
    ensures
        steps_run::<H>(m, steps, live).1 is Ok ==> steps_run::<H>(
            m,
            steps.push(step),
            live,
        ).0 == step_run::<H>(steps_run::<H>(m, steps, live).0, step, live).0,
        steps_run::<H>(m, steps, live).1 is Err ==> steps_run::<H>(
            m,
            steps.push(step),
            live,
        ) == steps_run::<H>(m, steps, live),
    decreases steps.len(),
{
    reveal_with_fuel(steps_run, 2);
    let more = steps.push(step);
    if steps.len() > 0 {
        assert(more[0] == steps[0]);
        assert(more.skip(1) =~= steps.skip(1).push(step));
        let (m1, done) = step_run::<H>(m, steps[0], live);
        if done is Ok {
            one_step_after_the_other::<H>(m1, steps.skip(1), step, live);
        }
    } else {
        assert(more.skip(1) =~= Seq::empty());
    }
}

/// What is known for swap is asked of the directory that the file is to be in, and of a
/// machine that is live alone.
pub proof fn what_is_asked_for_swap<H: Host>(m: Table<H>, cfg: Seq<(Seq<char>, Val)>, path: Seq<char>)
    requires
        get(cfg, "filename"@) == Some(Val::Text(path)),
    ensures
        swap_env::<H>(m, Val::Object(cfg), true).0.calls == m.calls.push(
            Call::SwapFacts(parent(path)),
        ),
        swap_env::<H>(m, Val::Object(cfg), false).0 == m,
        swap_env::<H>(m, Val::Object(cfg), false).1.memtotal is None,
        swap_env::<H>(m, Val::Null, true).0.calls == m.calls.push(
            Call::SwapFacts(parent("/swap.img"@)),
        ),
{
}

} // verus!
