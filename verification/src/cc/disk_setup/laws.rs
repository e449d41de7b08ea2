//! What disk setup promises of partition tables and filesystems.

use vstd::prelude::*;

use crate::cc::disk_setup::format::{
    block_at, force_flag, judged, make_fs, make_on, numbered, option_words, request_of, Request,
};
use crate::cc::disk_setup::host::{logged, Call, Host};
use crate::cc::disk_setup::layout::{gpt_parts, gpt_plan, mbr_lines, mbr_script, part_sectors};
use crate::cc::disk_setup::make::{ready, resolve};
use crate::cc::disk_setup::probe::{filesystem, Disks, FsInfo};
use crate::cc::disk_setup::table::is_digits;
use crate::number::{dec_int, digits};
use crate::show::{show, truthy};
use crate::space::{fold, trim, Class};
use crate::text::{holds, join};
use crate::value::{get, Val};

verus! {

/// The state of a machine after calls.
pub open spec fn world_after<H: Host>(world: H::World, calls: Seq<Call>) -> H::World
    decreases calls.len(),
{
    if calls.len() == 0 {
        world
    } else {
        H::reply(world_after::<H>(world, calls.drop_last()), calls.last()).0
    }
}

proof fn world_after_first<H: Host>(world: H::World, calls: Seq<Call>)
    requires
        calls.len() > 0,
    ensures
        world_after::<H>(world, calls) == world_after::<H>(H::reply(world, calls[0]).0, calls.skip(1)),
    decreases calls.len(),
{
    reveal_with_fuel(world_after, 2);
    if calls.len() > 1 {
        world_after_first::<H>(world, calls.drop_last());
        assert(calls.drop_last().skip(1) =~= calls.skip(1).drop_last());
    } else {
        assert(calls.drop_last() =~= Seq::empty());
        assert(calls.skip(1) =~= Seq::empty());
    }
}

/// The percentage and the type of an entry: both where it is a list of two, and
/// else the percentage alone.
pub open spec fn asked_share(entry: Val) -> Val {
    match entry {
        Val::Array(pair) => pair[0],
        _ => entry,
    }
}

/// Whether a text is a percentage as the machine is asked for it.
pub open spec fn is_share_text(text: Seq<char>, percent: Val) -> bool {
    match percent {
        Val::Int(n) => text == dec_int(n),
        Val::Float(s) => text == s,
        Val::Bool(true) => text == "1"@,
        Val::Bool(false) => text == "0"@,
        Val::Text(s) => text == trim(Class::Space, s),
        _ => false,
    }
}

/// Whether `counts` are the numbers of sectors that the machine gave, in this order,
/// for the percentages of a layout's entries on a disk.
pub open spec fn sectors_asked<H: Host>(m: Disks<H>, after: Disks<H>, items: Seq<Val>, size: (int, int), counts: Seq<int>) -> bool {
    let n = m.calls.len() as int;
    &&& counts.len() == items.len()
    &&& after.calls.len() == n + items.len()
    &&& after.calls.take(n) == m.calls
    &&& forall|i: int|
        0 <= i < items.len() ==> {
            &&& (#[trigger] after.calls[n + i]) matches Call::Share { bytes, sector, percent } && bytes == size.0 && sector
                == size.1 && is_share_text(percent, asked_share(items[i]))
            &&& H::reply(
                world_after::<H>(m.world, after.calls.subrange(n, n + i)),
                after.calls[n + i],
            ).1->MaybeNumber_0 == Some(counts[i])
        }
}

proof fn sectors_asked_step<H: Host>(
    m: Disks<H>,
    m1: Disks<H>,
    after: Disks<H>,
    items: Seq<Val>,
    size: (int, int),
    count: int,
    counts: Seq<int>,
)
    requires
        items.len() > 0,
        part_sectors::<H>(m, size, asked_share(items[0])) == (m1, Ok::<int, Seq<char>>(count)),
        sectors_asked::<H>(m1, after, items.skip(1), size, counts),
    ensures
        sectors_asked::<H>(m, after, items, size, seq![count] + counts),
{
    let n = m.calls.len() as int;
    let all = seq![count] + counts;
    assert(m1.calls =~= m.calls.push(m1.calls.last()));
    assert(after.calls.take(n) =~= after.calls.take(n + 1).take(n));
    assert(after.calls.take(n) =~= m.calls);
    assert(after.calls[n] == after.calls.take(n + 1)[n]);
    assert(after.calls[n] == m1.calls[n]);
    assert forall|i: int| 0 <= i < items.len() implies {
        &&& (#[trigger] after.calls[n + i]) matches Call::Share { bytes, sector, percent } && bytes == size.0 && sector
            == size.1 && is_share_text(percent, asked_share(items[i]))
        &&& H::reply(
            world_after::<H>(m.world, after.calls.subrange(n, n + i)),
            after.calls[n + i],
        ).1->MaybeNumber_0 == Some(all[i])
    } by {
        if i == 0 {
            assert(after.calls.subrange(n, n) =~= Seq::empty());
        } else {
            assert(after.calls[(n + 1) + (i - 1)] == after.calls[n + i]);
            assert(items.skip(1)[i - 1] == items[i]);
            let calls = after.calls.subrange(n, n + i);
            world_after_first::<H>(m.world, calls);
            assert(calls.skip(1) =~= after.calls.subrange(n + 1, (n + 1) + (i - 1)));
            assert(calls[0] == after.calls[n]);
            assert(all[i] == counts[i - 1]);
        }
    }
}

proof fn mbr_lines_by_entry<H: Host>(m: Disks<H>, items: Seq<Val>, size: (int, int)) -> (r: (Seq<Seq<char>>, Seq<int>))
    requires
        mbr_lines::<H>(m, items, size).1 is Ok,
    ensures
        mbr_lines::<H>(m, items, size).1 == Ok::<Seq<Seq<char>>, Seq<char>>(r.0),
        r.0.len() == items.len(),
        sectors_asked::<H>(m, mbr_lines::<H>(m, items, size).0, items, size, r.1),
        forall|i: int| #![trigger r.0[i]]
            0 <= i < items.len() ==> r.0[i] == ","@ + (if i + 1 < items.len() {
                dec_int(r.1[i])
            } else {
                Seq::empty()
            }) + ","@ + (match items[i] {
                Val::Array(pair) => show(pair[1]),
                _ => "83"@,
            }),
        forall|i: int| #![trigger items[i]] 0 <= i < items.len() && items[i] is Array ==> items[i]->Array_0.len() == 2,
    decreases items.len(),
{
    reveal_strlit(",");
    reveal_strlit(",,");
    reveal_strlit("83");
    if items.len() == 0 {
        assert(m.calls.take(m.calls.len() as int) =~= m.calls);
        (Seq::empty(), Seq::empty())
    } else {
        let (m1, count) = part_sectors::<H>(m, size, asked_share(items[0]));
        let rest = mbr_lines_by_entry::<H>(m1, items.skip(1), size);
        let lines = mbr_lines::<H>(m, items, size).1->Ok_0;
        let counts = seq![count->Ok_0] + rest.1;
        sectors_asked_step::<H>(m, m1, mbr_lines::<H>(m, items, size).0, items, size, count->Ok_0, rest.1);
        dec_int_83();
        assert(lines =~= seq![lines[0]] + rest.0);
        let kind = match items[0] {
            Val::Array(pair) => show(pair[1]),
            _ => "83"@,
        };
        assert(lines[0] == if items.len() == 1 {
            ",,"@ + kind
        } else {
            ","@ + dec_int(counts[0]) + ","@ + kind
        });
        assert(","@ + Seq::<char>::empty() + ","@ =~= ",,"@);
        assert forall|i: int| #![trigger lines[i]] 0 <= i < items.len() implies lines[i] == ","@ + (if i + 1 < items.len() {
            dec_int(counts[i])
        } else {
            Seq::empty()
        }) + ","@ + (match items[i] {
            Val::Array(pair) => show(pair[1]),
            _ => "83"@,
        }) by {
            if i > 0 {
                assert(lines[i] == rest.0[i - 1]);
                assert(counts[i] == rest.1[i - 1]);
                assert(items.skip(1)[i - 1] == items[i]);
            }
        }
        assert forall|i: int| #![trigger items[i]] 0 <= i < items.len() && items[i] is Array implies items[i]->Array_0.len()
            == 2 by {
            if i > 0 {
                assert(items.skip(1)[i - 1] == items[i]);
            }
        }
        (lines, counts)
    }
}

proof fn dec_int_83()
    ensures
        show(Val::Int(83)) == "83"@,
{
    reveal_strlit("83");
    reveal_with_fuel(digits, 4);
    assert(show(Val::Int(83)) =~= "83"@);
}

/// The `sfdisk` script for a layout that lists its partitions has a line for each of
/// them, in their order: the number of sectors that its own percentage comes to on
/// the disk, and its own type, which is `83` where the entry has none. The last line
/// has no number.
pub proof fn a_script_has_a_line_for_each_partition<H: Host>(m: Disks<H>, size: (int, int), items: Seq<Val>) -> (r: (
    Seq<Seq<char>>,
    Seq<int>,
))
    requires
        mbr_script::<H>(m, size, Val::Array(items)).1 is Ok,
    ensures
        1 <= items.len() <= 4,
        r.0.len() == items.len(),
        sectors_asked::<H>(m, mbr_script::<H>(m, size, Val::Array(items)).0, items, size, r.1),
        forall|i: int| #![trigger r.0[i]]
            0 <= i < items.len() ==> r.0[i] == ","@ + (if i + 1 < items.len() {
                dec_int(r.1[i])
            } else {
                Seq::empty()
            }) + ","@ + (match items[i] {
                Val::Array(pair) => show(pair[1]),
                _ => "83"@,
            }),
        mbr_script::<H>(m, size, Val::Array(items)).1->Ok_0 == join(r.0, "\n"@),
{
    mbr_lines_by_entry::<H>(m, items, size)
}

/// The calls that run something or write to a device.
pub open spec fn commands(calls: Seq<Call>) -> Seq<Call>
    decreases calls.len(),
{
    if calls.len() == 0 {
        Seq::empty()
    } else {
        let before = commands(calls.drop_last());
        match calls.last() {
            Call::Subp { .. } | Call::Shell(_) | Call::WipeEnds(_) => before.push(calls.last()),
            _ => before,
        }
    }
}

broadcast proof fn commands_push(calls: Seq<Call>, call: Call)
    ensures
        #[trigger] commands(calls.push(call)) == (match call {
            Call::Subp { .. } | Call::Shell(_) | Call::WipeEnds(_) => commands(calls).push(call),
            _ => commands(calls),
        }),
{
    assert(calls.push(call).drop_last() =~= calls);
}

/// A partition of a device by its number: behind a name that ends in a digit comes a
/// `p`.
pub open spec fn partition_node(device: Seq<char>, number: Seq<char>) -> Seq<char> {
    if number.len() == 0 {
        device
    } else if device.len() > 0 && 0x30 <= device.last() as u32 <= 0x39 {
        device + seq!['p'] + number
    } else {
        device + number
    }
}

/// The machine when it is asked what is on the partition with a number, or on the
/// whole device where there is no number, and whether there is such a partition.
pub open spec fn before_looking<H: Host>(m: Disks<H>, device: Seq<char>, number: Seq<char>) -> (Disks<H>, bool) {
    let (m1, name) = resolve::<H>(ready::<H>(m, device).0, device);
    let node = partition_node(name, number);
    let m2 = logged::<H>(m1, "Checking "@ + name + " against default devices"@);
    if number.len() == 0 {
        (logged::<H>(m2, "Checking device "@ + node), true)
    } else {
        let (m3, there) = block_at::<H>(m2, node);
        (
            logged::<H>(
                logged::<H>(m3, "Manual request of partition "@ + number + " for "@ + node),
                "Checking device "@ + node,
            ),
            there,
        )
    }
}

/// Whether what was found of a device is what was asked for.
pub open spec fn as_wanted(found: Option<Seq<char>>, wanted: Option<Val>) -> bool {
    match wanted {
        None | Some(Val::Null) => found is None,
        Some(Val::Text(s)) => found == Some(s),
        Some(_) => false,
    }
}

/// Where a named device or partition holds the filesystem with the label and of the
/// type that are asked for, and it is not said that it may be overwritten, nothing
/// is run on it but what found that out, and that is no failure.
pub proof fn a_filesystem_that_is_right_is_left_alone<H: Host>(
    m: Disks<H>,
    cfg: Seq<(Seq<char>, Val)>,
    device: Seq<char>,
    number: Seq<char>,
    tags: FsInfo,
)
    requires
        get(cfg, "device"@) == Some(Val::Text(device)),
        get(cfg, "partition"@) matches Some(v) && show(v) == number,
        number.len() == 0 || is_digits(number),
        !(get(cfg, "overwrite"@) matches Some(v) && truthy(v)),
        ready::<H>(m, device).1 is Ok,
        before_looking::<H>(m, device, number).1,
        ({
            let node = partition_node(resolve::<H>(ready::<H>(m, device).0, device).1, number);
            filesystem::<H>(before_looking::<H>(m, device, number).0, node).1 == Ok::<FsInfo, Seq<char>>(tags)
        }),
        as_wanted(tags.label, get(cfg, "label"@)),
        as_wanted(tags.fs_type, get(cfg, "filesystem"@)),
    ensures
        make_fs::<H>(m, cfg).1 is Ok,
        ({
            let node = partition_node(resolve::<H>(ready::<H>(m, device).0, device).1, number);
            commands(make_fs::<H>(m, cfg).0.calls) == commands(
                filesystem::<H>(before_looking::<H>(m, device, number).0, node).0.calls,
            )
        }),
{
    broadcast use commands_push;
    let name = resolve::<H>(ready::<H>(m, device).0, device).1;
    node_is_numbered(name, number);
}

proof fn node_is_numbered(device: Seq<char>, number: Seq<char>)
    requires
        number.len() == 0 || is_digits(number),
    ensures
        number.len() > 0 ==> numbered(device, number) == partition_node(device, number),
{
    assert(device.push('p') =~= device + seq!['p']);
}

/// Where a named device or partition does not hold what is asked for, or it is said
/// that it may be overwritten, it is the device that the filesystem is made on.
pub proof fn a_filesystem_is_made_where_it_is_wanted<H: Host>(
    m: Disks<H>,
    cfg: Seq<(Seq<char>, Val)>,
    device: Seq<char>,
    number: Seq<char>,
    tags: FsInfo,
) -> (before: Disks<H>)
    requires
        get(cfg, "device"@) == Some(Val::Text(device)),
        get(cfg, "partition"@) matches Some(v) && show(v) == number,
        number.len() == 0 || is_digits(number),
        ready::<H>(m, device).1 is Ok,
        before_looking::<H>(m, device, number).1,
        ({
            let node = partition_node(resolve::<H>(ready::<H>(m, device).0, device).1, number);
            filesystem::<H>(before_looking::<H>(m, device, number).0, node).1 == Ok::<FsInfo, Seq<char>>(tags)
        }),
        (get(cfg, "overwrite"@) matches Some(v) && truthy(v)) || !as_wanted(tags.label, get(cfg, "label"@))
            || !as_wanted(tags.fs_type, get(cfg, "filesystem"@)),
    ensures
        ({
            let node = partition_node(resolve::<H>(ready::<H>(m, device).0, device).1, number);
            &&& commands(before.calls) == commands(
                filesystem::<H>(before_looking::<H>(m, device, number).0, node).0.calls,
            )
            &&& make_fs::<H>(m, cfg) == make_on::<H>(before, node, request_of(cfg))
        }),
{
    broadcast use commands_push;
    let name = resolve::<H>(ready::<H>(m, device).0, device).1;
    node_is_numbered(name, number);
    let node = partition_node(name, number);
    judged::<H>(
        filesystem::<H>(before_looking::<H>(m, device, number).0, node).0,
        node,
        tags,
        request_of(cfg),
    ).0
}

/// A partition that is asked for by its number and is not there is passed over.
pub proof fn a_missing_partition_is_passed_over<H: Host>(
    m: Disks<H>,
    cfg: Seq<(Seq<char>, Val)>,
    device: Seq<char>,
    number: Seq<char>,
)
    requires
        get(cfg, "device"@) == Some(Val::Text(device)),
        get(cfg, "partition"@) matches Some(v) && show(v) == number,
        is_digits(number),
        ready::<H>(m, device).1 is Ok,
        !before_looking::<H>(m, device, number).1,
    ensures
        make_fs::<H>(m, cfg).1 is Ok,
        commands(make_fs::<H>(m, cfg).0.calls) == commands(ready::<H>(m, device).0.calls),
{
    broadcast use commands_push;
    let name = resolve::<H>(ready::<H>(m, device).0, device).1;
    node_is_numbered(name, number);
}

/// Without a command of its own, a filesystem is made by the program `mkfs.` and its
/// type, or else `mk` and its type. The words behind the program are the label, the
/// flag that overwrites where it may be overwritten, the options in their order, and
/// last the device.
pub proof fn the_words_that_make_a_filesystem<H: Host>(
    m: Disks<H>,
    device: Seq<char>,
    q: Request,
    options: Seq<Val>,
    program: Seq<char>,
) -> (argv: Seq<Seq<char>>)
    requires
        device.len() > 0,
        q.fs_type matches Val::Text(kind) && kind.len() > 0,
        !truthy(q.cmd),
        q.overwrite,
        q.opts == Val::Array(options),
        ({
            let ready = logged::<H>(
                m,
                "File system type '"@ + show(q.fs_type) + "' with label '"@ + show(q.label) + "' will be created on "@
                    + device,
            );
            let kind = q.fs_type->Text_0;
            let first = H::reply(ready.world, Call::Which("mkfs."@ + kind));
            let second = H::reply(first.0, Call::Which("mk"@ + kind));
            Some(program) == if first.1->MaybeText_0 is Some {
                first.1->MaybeText_0
            } else {
                second.1->MaybeText_0
            }
        }),
    ensures
        make_on::<H>(m, device, q).0.calls.last() == (Call::Subp {
            argv,
            data: None,
            env: Seq::empty(),
            rcs: seq![0int],
        }),
        argv[0] == program,
        argv.last() == device,
        truthy(q.label) ==> argv[1] == "-L"@ && argv[2] == show(q.label),
        ({
            let kind = fold(q.fs_type->Text_0);
            let at: int = if truthy(q.label) {
                3
            } else {
                1
            };
            let flagged = holds(kind, "ext"@) || kind == "btrfs"@ || kind == "xfs"@ || kind == "reiserfs"@ || kind
                == "swap"@;
            let from = if flagged {
                at + 1
            } else {
                at
            };
            &&& argv.len() == from + options.len() + 1
            &&& flagged ==> argv[at] == (if holds(kind, "ext"@) {
                "-F"@
            } else {
                "-f"@
            })
            &&& forall|j: int| from <= j < from + options.len() ==> #[trigger] argv[j] == show(options[j - from])
        }),
{
    reveal_strlit("-F");
    reveal_strlit("-f");
    let flag = force_flag(show(q.fs_type));
    let words = option_words(q.opts)->Ok_0;
    let head = seq![program] + (if truthy(q.label) {
        seq!["-L"@, show(q.label)]
    } else {
        Seq::empty()
    }) + (if flag.len() > 0 {
        seq![flag]
    } else {
        Seq::empty()
    });
    let argv = head + words + seq![device];
    argv
}

/// A layout as GPT partitions: one for each entry, in their order. Each starts where
/// there is room; it ends behind as many sectors as its own percentage comes to, the
/// last one at the end of the disk; and it has its own type, or none.
pub proof fn a_plan_has_a_partition_for_each_entry<H: Host>(m: Disks<H>, size: (int, int), items: Seq<Val>) -> (counts: Seq<
    int,
>)
    requires
        gpt_plan::<H>(m, size, Val::Array(items)).1 is Ok,
    ensures
        items.len() >= 1,
        sectors_asked::<H>(m, gpt_plan::<H>(m, size, Val::Array(items)).0, items, size, counts),
        ({
            let plan = gpt_plan::<H>(m, size, Val::Array(items)).1->Ok_0;
            &&& plan.len() == items.len()
            &&& forall|i: int| #![trigger plan[i]]
                0 <= i < items.len() ==> {
                    &&& plan[i].start == "0"@
                    &&& plan[i].end == (if i + 1 < items.len() {
                        "+"@ + dec_int(counts[i])
                    } else {
                        "0"@
                    })
                    &&& plan[i].kind == (match items[i] {
                        Val::Array(pair) => pair[1],
                        _ => Val::Null,
                    })
                }
        }),
{
    gpt_parts_by_entry::<H>(m, items, size)
}

proof fn gpt_parts_by_entry<H: Host>(m: Disks<H>, items: Seq<Val>, size: (int, int)) -> (counts: Seq<int>)
    requires
        gpt_parts::<H>(m, items, size).1 is Ok,
    ensures
        sectors_asked::<H>(m, gpt_parts::<H>(m, items, size).0, items, size, counts),
        ({
            let plan = gpt_parts::<H>(m, items, size).1->Ok_0;
            &&& plan.len() == items.len()
            &&& forall|i: int| #![trigger plan[i]]
                0 <= i < items.len() ==> {
                    &&& plan[i].start == "0"@
                    &&& plan[i].end == (if i + 1 < items.len() {
                        "+"@ + dec_int(counts[i])
                    } else {
                        "0"@
                    })
                    &&& plan[i].kind == (match items[i] {
                        Val::Array(pair) => pair[1],
                        _ => Val::Null,
                    })
                }
        }),
    decreases items.len(),
{
    if items.len() == 0 {
        assert(m.calls.take(m.calls.len() as int) =~= m.calls);
        Seq::empty()
    } else {
        let (m1, count) = part_sectors::<H>(m, size, asked_share(items[0]));
        let rest = gpt_parts_by_entry::<H>(m1, items.skip(1), size);
        let plan = gpt_parts::<H>(m, items, size).1->Ok_0;
        let tail = gpt_parts::<H>(m1, items.skip(1), size).1->Ok_0;
        let counts = seq![count->Ok_0] + rest;
        sectors_asked_step::<H>(m, m1, gpt_parts::<H>(m, items, size).0, items, size, count->Ok_0, rest);
        assert(plan =~= seq![plan[0]] + tail);
        assert forall|i: int| #![trigger plan[i]] 0 <= i < items.len() implies {
            &&& plan[i].start == "0"@
            &&& plan[i].end == (if i + 1 < items.len() {
                "+"@ + dec_int(counts[i])
            } else {
                "0"@
            })
            &&& plan[i].kind == (match items[i] {
                Val::Array(pair) => pair[1],
                _ => Val::Null,
            })
        } by {
            if i > 0 {
                assert(plan[i] == tail[i - 1]);
                assert(counts[i] == rest[i - 1]);
                assert(items.skip(1)[i - 1] == items[i]);
            }
        }
        counts
    }
}

}
