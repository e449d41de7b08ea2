//! The key file of an encrypted volume is used up by the run that uses it.

use vstd::prelude::*;

use crate::cc::growpart::devices::{
    call_tool, encrypted, entry_device, grow_encrypted, grow_mapped, is_device_mode, key_of, mapped_node, mapped_round,
    or_none, part_info, round, rounds, seen, skipped, underlying, MappedSpec, NoDevice, Resize, RoundSpec, Row,
};
use crate::cc::growpart::host::{
    ask_read_keydata, ask_stat_mode, logged, Answer, Call, Fixture, Grown, Host, Script,
};
use crate::cc::growpart::kept::{
    a_row_names_its_entry, a_run_keeps, decisions_keep, entries_keep, is_kept, lines_keep, parts_keep, round_kept,
    tools_keep,
};
use crate::cc::growpart::resize::Resizer;
use crate::cc::growpart::{decided, grow_all};
use crate::text::starts;
use crate::value::Val;

verus! {

/// A way to tell that the key file of a machine is gone: then there is nothing to
/// read, it stays so whatever is asked, and it is so once the file was removed. A
/// file can always be removed.
pub open spec fn tells_gone<H: Host>(gone: spec_fn(H::World) -> bool) -> bool {
    &&& is_kept::<H>(gone)
    &&& forall|w: H::World|
        gone(w) ==> (#[trigger] H::reply(w, Call::ReadKeydata)).1 == Answer::KeyData(None)
    &&& forall|w: H::World|
        {
            let (after, answer) = #[trigger] H::reply(w, Call::UnlinkKeydata);
            gone(after) && answer == Answer::Done(Ok(()))
        }
}

/// Whether an outcome is that of a volume that was grown.
pub open spec fn says_volume_grown(row: Row) -> bool {
    starts(row.message, "Successfully resized encrypted volume '"@)
}

proof fn grown_starts(row: Row)
    ensures
        says_volume_grown(row) ==> row.message.len() > 0 && row.message[0] == 'S',
{
    reveal_strlit("Successfully resized encrypted volume '");
    let start = "Successfully resized encrypted volume '"@;
    if says_volume_grown(row) {
        assert(row.message[0] == row.message.subrange(0, start.len() as int)[0]);
    }
}

/// Without the key file nothing is grown, and that is no failure.
pub proof fn no_key_is_a_skip<H: Host>(
    gone: spec_fn(H::World) -> bool,
    m: Grown<H>,
    device: Seq<char>,
    partition: Seq<char>,
)
    requires
        tells_gone::<H>(gone),
        gone(m.world),
    ensures
        grow_encrypted::<H>(m, device, partition).1 == Ok::<(Resize, Seq<char>), Seq<char>>(
            (Resize::Skipped, "No encryption keyfile found"@),
        ),
        gone(grow_encrypted::<H>(m, device, partition).0.world),
{
}

/// Once a key was used, its file is gone, whatever came of the resize.
pub proof fn a_used_key_is_gone<H: Host>(
    gone: spec_fn(H::World) -> bool,
    m: Grown<H>,
    device: Seq<char>,
    partition: Seq<char>,
)
    requires
        tells_gone::<H>(gone),
        ask_read_keydata::<H>(m).1 is Some,
        key_of(ask_read_keydata::<H>(m).1->0) is Some,
    ensures
        gone(grow_encrypted::<H>(m, device, partition).0.world),
{
}

proof fn volumes_keep<H: Host>(
    gone: spec_fn(H::World) -> bool,
    m: Grown<H>,
    devent: Val,
    device: Seq<char>,
    node: Seq<char>,
    info: Seq<Row>,
)
    requires
        tells_gone::<H>(gone),
    ensures
        ({
            let (m1, done) = grow_mapped::<H>(m, device, node, info);
            let row = mapped_round(devent, device, done)->Ok_0;
            &&& gone(m.world) ==> gone(m1.world)
            &&& row is Row && says_volume_grown(row->Row_0) ==> gone(m1.world) && !gone(m.world)
        }),
{
    reveal_strlit("Resizing mapped device (");
    reveal_strlit("Resizing encrypted device (");
    reveal_strlit("No encryption keyfile found");
    let (m1, done) = grow_mapped::<H>(m, device, node, info);
    let row = mapped_round(devent, device, done)->Ok_0;
    if row is Row {
        grown_starts(row->Row_0);
    }
    let (n1, partition) = underlying::<H>(m, device);
    if let Ok(partition) = partition {
        let (n2, luks) = encrypted::<H>(n1, node, partition);
        assert(gone(m.world) ==> gone(n2.world));
        if luks && seen(info, partition) {
            let read = ask_read_keydata::<H>(n2).1;
            if gone(n2.world) {
                no_key_is_a_skip::<H>(gone, n2, device, partition);
            } else if read is Some && key_of(read->0) is Some {
                a_used_key_is_gone::<H>(gone, n2, device, partition);
            }
        }
    }
}

proof fn rows_of_tools<H: Host>(
    m: Grown<H>,
    tool: Resizer,
    devent: Val,
    disk: Option<Seq<char>>,
    number: Option<Seq<char>>,
    device: Seq<char>,
    fs: Option<Seq<char>>,
)
    requires
        call_tool::<H>(m, tool, devent, disk, number, device, fs).1 is Ok,
    ensures
        !says_volume_grown(call_tool::<H>(m, tool, devent, disk, number, device, fs).1->Ok_0),
{
    reveal_strlit("failed to resize: disk=");
    reveal_strlit("no change necessary (");
    reveal_strlit("changed (");
    grown_starts(call_tool::<H>(m, tool, devent, disk, number, device, fs).1->Ok_0);
}

proof fn round_keeps<H: Host>(gone: spec_fn(H::World) -> bool, m: Grown<H>, tool: Resizer, devent: Val, info: Seq<Row>)
    requires
        tells_gone::<H>(gone),
    ensures
        ({
            let (m1, done) = round::<H>(m, tool, devent, info);
            &&& gone(m.world) ==> gone(m1.world)
            &&& done matches Ok(RoundSpec::Row(row)) ==> (says_volume_grown(row) ==> gone(m1.world) && !gone(m.world))
        }),
{
    reveal_strlit("stat of '");
    reveal_strlit("device '");
    reveal_strlit("device_part_info(");
    reveal_strlit("unable to convert to device: ");
    assert forall|n: Grown<H>, disk: Option<Seq<char>>, number: Option<Seq<char>>, device: Seq<char>, fs: Option<Seq<char>>|
        gone(n.world) implies gone(
        (#[trigger] call_tool::<H>(n, tool, devent, disk, number, device, fs)).0.world,
    ) by {
        tools_keep::<H>(
            gone,
            n,
            tool,
            or_none(disk),
            or_none(number),
            device,
            fs,
        );
    }
    assert forall|n: Grown<H>, disk: Option<Seq<char>>, number: Option<Seq<char>>, device: Seq<char>, fs: Option<Seq<char>>|
        (#[trigger] call_tool::<H>(n, tool, devent, disk, number, device, fs)).1 is Ok implies !says_volume_grown(
        call_tool::<H>(n, tool, devent, disk, number, device, fs).1->Ok_0,
    ) by {
        rows_of_tools::<H>(n, tool, devent, disk, number, device, fs);
    }
    assert forall|n: Grown<H>, device: Seq<char>| gone(n.world) implies gone(
        (#[trigger] part_info::<H>(n, device)).0.world,
    ) by {
        parts_keep::<H>(gone, n, device);
    }
    assert forall|n: Grown<H>, device: Seq<char>, node: Seq<char>|
        ({
            let (n1, done) = #[trigger] grow_mapped::<H>(n, device, node, info);
            let row = mapped_round(devent, device, done)->Ok_0;
            &&& gone(n.world) ==> gone(n1.world)
            &&& row is Row && says_volume_grown(row->Row_0) ==> gone(n1.world) && !gone(n.world)
        }) by {
        volumes_keep::<H>(gone, n, devent, device, node, info);
    }
    if gone(m.world) {
        entries_keep::<H>(gone, m, devent);
    }
    if let Ok(RoundSpec::Row(row)) = round::<H>(m, tool, devent, info).1 {
        grown_starts(row);
    }
}

proof fn rounds_keep<H: Host>(
    gone: spec_fn(H::World) -> bool,
    m: Grown<H>,
    tool: Resizer,
    queue: Seq<Val>,
    info: Seq<Row>,
    fuel: nat,
)
    requires
        tells_gone::<H>(gone),
    ensures
        ({
            let (m1, done) = rounds::<H>(m, tool, queue, info, fuel);
            &&& gone(m.world) ==> gone(m1.world)
            &&& done matches Ok(rows) ==> rows.len() >= info.len() && rows.take(info.len() as int) == info
            &&& done matches Ok(rows) ==> forall|i: int|
                info.len() <= i < rows.len() && says_volume_grown(#[trigger] rows[i]) ==> gone(m1.world) && !gone(
                    m.world,
                )
        }),
    decreases fuel,
{
    if queue.len() == 0 {
        assert(info.take(info.len() as int) =~= info);
    } else if fuel > 0 {
        let (m1, done) = round::<H>(m, tool, queue[0], info);
        round_keeps::<H>(gone, m, tool, queue[0], info);
        match done {
            Err(_) => {},
            Ok(RoundSpec::Row(row)) => {
                let more = info.push(row);
                rounds_keep::<H>(gone, m1, tool, queue.skip(1), more, (fuel - 1) as nat);
                let (m2, end) = rounds::<H>(m, tool, queue, info, fuel);
                if let Ok(rows) = end {
                    assert(rows.take(info.len() as int) =~= rows.take(more.len() as int).take(info.len() as int));
                    assert(more.take(info.len() as int) =~= info);
                    assert(rows[info.len() as int] == rows.take(more.len() as int)[info.len() as int]);
                    assert forall|i: int|
                        info.len() <= i < rows.len() && says_volume_grown(#[trigger] rows[i]) implies gone(m2.world)
                        && !gone(m.world) by {
                        if i == info.len() {
                            assert(rows[i] == row);
                        }
                    }
                }
            },
            Ok(RoundSpec::Wait(partition)) => {
                rounds_keep::<H>(gone, m1, tool, seq![Val::Text(partition)] + queue, info, (fuel - 1) as nat);
            },
        }
    }
}

/// A run on a machine whose key file is gone grows no volume, and leaves it gone.
pub proof fn without_the_key_no_volume_grows<H: Host>(
    gone: spec_fn(H::World) -> bool,
    m: Grown<H>,
    cfg: Seq<(Seq<char>, Val)>,
)
    requires
        tells_gone::<H>(gone),
        gone(m.world),
    ensures
        gone(grow_all::<H>(m, cfg).0.world),
        grow_all::<H>(m, cfg).1 matches Ok(rows) ==> forall|i: int|
            0 <= i < rows.len() ==> !says_volume_grown(#[trigger] rows[i]),
{
    let (m1, plan) = decided::<H>(m, cfg);
    decisions_keep::<H>(gone, m, cfg);
    if let Ok(Some((tool, devices))) = plan {
        rounds_keep::<H>(gone, m1, tool, devices, Seq::empty(), u64::MAX as nat);
        let (m2, rows) = rounds::<H>(m1, tool, devices, Seq::empty(), u64::MAX as nat);
        if let Ok(rows) = rows {
            lines_keep::<H>(gone, m2, rows);
        }
    }
}

/// After a run that grew a volume, its key file is gone.
pub proof fn a_grown_volume_leaves_no_key<H: Host>(
    gone: spec_fn(H::World) -> bool,
    m: Grown<H>,
    cfg: Seq<(Seq<char>, Val)>,
    i: int,
)
    requires
        tells_gone::<H>(gone),
        grow_all::<H>(m, cfg).1 is Ok,
        0 <= i < grow_all::<H>(m, cfg).1->Ok_0.len(),
        says_volume_grown(grow_all::<H>(m, cfg).1->Ok_0[i]),
    ensures
        gone(grow_all::<H>(m, cfg).0.world),
{
    let (m1, plan) = decided::<H>(m, cfg);
    if let Ok(Some((tool, devices))) = plan {
        rounds_keep::<H>(gone, m1, tool, devices, Seq::empty(), u64::MAX as nat);
        let (m2, rows) = rounds::<H>(m1, tool, devices, Seq::empty(), u64::MAX as nat);
        if let Ok(rows) = rows {
            lines_keep::<H>(gone, m2, rows);
        }
    }
}

/// A key file is good for one run: after a run that grew a volume with it, a second
/// run, with the same configuration or another, grows none.
pub proof fn a_second_run_grows_no_volume<H: Host>(
    gone: spec_fn(H::World) -> bool,
    m: Grown<H>,
    cfg: Seq<(Seq<char>, Val)>,
    again: Seq<(Seq<char>, Val)>,
    i: int,
)
    requires
        tells_gone::<H>(gone),
        grow_all::<H>(m, cfg).1 is Ok,
        0 <= i < grow_all::<H>(m, cfg).1->Ok_0.len(),
        says_volume_grown(grow_all::<H>(m, cfg).1->Ok_0[i]),
    ensures
        grow_all::<H>(grow_all::<H>(m, cfg).0, again).1 matches Ok(rows) ==> forall|j: int|
            0 <= j < rows.len() ==> !says_volume_grown(#[trigger] rows[j]),
{
    a_grown_volume_leaves_no_key::<H>(gone, m, cfg, i);
    without_the_key_no_volume_grows::<H>(gone, grow_all::<H>(m, cfg).0, again);
}

/// An encrypted volume whose partition was dealt with is passed over once the key file
/// is gone.
pub proof fn a_volume_is_passed_over_without_the_key<H: Host>(
    gone: spec_fn(H::World) -> bool,
    m: Grown<H>,
    devent: Val,
    device: Seq<char>,
    partition: Seq<char>,
)
    requires
        tells_gone::<H>(gone),
        gone(m.world),
    ensures
        ({
            let (_, done) = grow_encrypted::<H>(m, device, partition);
            mapped_round(
                devent,
                device,
                match done {
                    Err(e) => Err(e),
                    Ok((action, message)) => Ok(MappedSpec::Done(action, message)),
                },
            ) == skipped(devent, "No encryption keyfile found"@)
        }),
{
}

/// Whether an entry is an encrypted volume on a partition, on every machine of a kind
/// that calls keep: it names a device, which is mapped to a node and is encrypted.
#[verifier::opaque]
pub open spec fn is_volume<H: Host>(
    still: spec_fn(H::World) -> bool,
    tool: Resizer,
    devent: Val,
    device: Seq<char>,
    fs: Option<Seq<char>>,
    node: Seq<char>,
    partition: Seq<char>,
) -> bool {
    &&& is_kept::<H>(still)
    &&& !(fs == Some("zfs"@) && tool == Resizer::GrowFS)
    &&& forall|n: Grown<H>| still(n.world) ==> (#[trigger] entry_device::<H>(n, devent)).1 == Ok::<_, NoDevice>((device, fs))
    &&& forall|n: Grown<H>|
        still(n.world) ==> ((#[trigger] ask_stat_mode::<H>(n, device)).1 matches Ok(mode) && is_device_mode(mode))
    &&& forall|n: Grown<H>| still(n.world) ==> (#[trigger] mapped_node::<H>(n, device)).1 == Some(node)
    &&& forall|n: Grown<H>|
        still(n.world) ==> (#[trigger] underlying::<H>(n, device)).1 == Ok::<_, Seq<char>>(partition)
    &&& forall|n: Grown<H>| still(n.world) ==> (#[trigger] encrypted::<H>(n, node, partition)).1
}

/// The outcome of a volume for which there is no key.
pub open spec fn passed_over(devent: Val) -> Row {
    Row { devent, action: Resize::Skipped, message: "No encryption keyfile found"@ }
}

proof fn volume_round<H: Host>(
    gone: spec_fn(H::World) -> bool,
    still: spec_fn(H::World) -> bool,
    m: Grown<H>,
    tool: Resizer,
    devent: Val,
    device: Seq<char>,
    fs: Option<Seq<char>>,
    node: Seq<char>,
    partition: Seq<char>,
    info: Seq<Row>,
)
    requires
        tells_gone::<H>(gone),
        gone(m.world),
        is_volume::<H>(still, tool, devent, device, fs, node, partition),
        still(m.world),
    ensures
        round::<H>(m, tool, devent, info).1 == (if seen(info, partition) {
            Ok::<RoundSpec, Seq<char>>(RoundSpec::Row(passed_over(devent)))
        } else {
            Ok::<RoundSpec, Seq<char>>(RoundSpec::Wait(partition))
        }),
{
    reveal(is_volume);
    entries_keep::<H>(gone, m, devent);
    entries_keep::<H>(still, m, devent);
    let m1 = logged::<H>(entry_device::<H>(m, devent).0, "growpart found fs="@ + or_none(fs));
    let m2 = ask_stat_mode::<H>(m1, device).0;
    let m3 = mapped_node::<H>(m2, device).0;
    let m4 = underlying::<H>(m3, device).0;
    let m5 = encrypted::<H>(m4, node, partition).0;
    assert(gone(m5.world) && still(m4.world));
    no_key_is_a_skip::<H>(gone, m5, device, partition);
}

proof fn volume_rounds<H: Host>(
    gone: spec_fn(H::World) -> bool,
    still: spec_fn(H::World) -> bool,
    m: Grown<H>,
    tool: Resizer,
    devent: Val,
    device: Seq<char>,
    fs: Option<Seq<char>>,
    node: Seq<char>,
    partition: Seq<char>,
    queue: Seq<Val>,
    info: Seq<Row>,
    fuel: nat,
)
    requires
        tells_gone::<H>(gone),
        gone(m.world),
        is_volume::<H>(still, tool, devent, device, fs, node, partition),
        is_kept::<H>(still),
        still(m.world),
    ensures
        rounds::<H>(m, tool, queue, info, fuel).1 matches Ok(rows) ==> {
            &&& rows.len() >= info.len()
            &&& rows.take(info.len() as int) == info
            &&& forall|i: int|
                info.len() <= i < rows.len() && (#[trigger] rows[i]).devent == devent ==> rows[i] == passed_over(devent)
            &&& queue.contains(devent) ==> exists|i: int|
                info.len() <= i < rows.len() && (#[trigger] rows[i]).devent == devent
        },
    decreases fuel,
{
    if queue.len() == 0 {
        assert(info.take(info.len() as int) =~= info);
    } else if fuel > 0 {
        let (m1, done) = round::<H>(m, tool, queue[0], info);
        round_kept::<H>(gone, m, tool, queue[0], info);
        round_kept::<H>(still, m, tool, queue[0], info);
        a_row_names_its_entry::<H>(m, tool, queue[0], info);
        if queue[0] == devent {
            volume_round::<H>(gone, still, m, tool, devent, device, fs, node, partition, info);
        }
        match done {
            Err(_) => {},
            Ok(RoundSpec::Row(row)) => {
                let more = info.push(row);
                let rest = queue.skip(1);
                volume_rounds::<H>(
                    gone, still, m1, tool, devent, device, fs, node, partition, rest, more, (fuel - 1) as nat,
                );
                if let Ok(rows) = rounds::<H>(m, tool, queue, info, fuel).1 {
                    assert(rows.take(info.len() as int) =~= rows.take(more.len() as int).take(info.len() as int));
                    assert(more.take(info.len() as int) =~= info);
                    assert(rows[info.len() as int] == rows.take(more.len() as int)[info.len() as int]);
                    assert forall|i: int|
                        info.len() <= i < rows.len() && (#[trigger] rows[i]).devent == devent implies rows[i]
                        == passed_over(devent) by {
                        if i == info.len() {
                            assert(rows[i] == row);
                        }
                    }
                    if queue.contains(devent) {
                        if queue[0] == devent {
                            assert(rows[info.len() as int].devent == devent);
                        } else {
                            let j = choose|j: int| 0 <= j < queue.len() && queue[j] == devent;
                            assert(rest[j - 1] == devent);
                            assert(rest.contains(devent));
                        }
                    }
                }
            },
            Ok(RoundSpec::Wait(waited)) => {
                let longer = seq![Val::Text(waited)] + queue;
                volume_rounds::<H>(
                    gone, still, m1, tool, devent, device, fs, node, partition, longer, info, (fuel - 1) as nat,
                );
                if queue.contains(devent) {
                    let j = choose|j: int| 0 <= j < queue.len() && queue[j] == devent;
                    assert(longer[j + 1] == devent);
                    assert(longer.contains(devent));
                }
            },
        }
    }
}

/// A run on a machine whose key file is gone passes its encrypted volumes over: every
/// outcome of an entry that is one is that it was skipped for want of the key, and
/// where the entry is among the devices there is such an outcome.
pub proof fn without_the_key_volumes_are_passed_over<H: Host>(
    gone: spec_fn(H::World) -> bool,
    still: spec_fn(H::World) -> bool,
    m: Grown<H>,
    cfg: Seq<(Seq<char>, Val)>,
    tool: Resizer,
    devices: Seq<Val>,
    devent: Val,
    device: Seq<char>,
    fs: Option<Seq<char>>,
    node: Seq<char>,
    partition: Seq<char>,
)
    requires
        tells_gone::<H>(gone),
        gone(m.world),
        is_volume::<H>(still, tool, devent, device, fs, node, partition),
        still(m.world),
        decided::<H>(m, cfg).1 == Ok::<_, Seq<char>>(Some((tool, devices))),
    ensures
        grow_all::<H>(m, cfg).1 matches Ok(rows) ==> {
            &&& forall|i: int|
                0 <= i < rows.len() && (#[trigger] rows[i]).devent == devent ==> rows[i] == passed_over(devent)
            &&& devices.contains(devent) ==> exists|i: int|
                0 <= i < rows.len() && (#[trigger] rows[i]).devent == devent
        },
{
    reveal(is_volume);
    let m1 = decided::<H>(m, cfg).0;
    decisions_keep::<H>(gone, m, cfg);
    decisions_keep::<H>(still, m, cfg);
    volume_rounds::<H>(
        gone, still, m1, tool, devent, device, fs, node, partition, devices, Seq::empty(), u64::MAX as nat,
    );
}

/// A key file is good for one run: after a run that grew a volume, a second run, with
/// the same configuration or another, passes every encrypted volume over for want of
/// the key.
pub proof fn a_second_run_passes_volumes_over<H: Host>(
    gone: spec_fn(H::World) -> bool,
    still: spec_fn(H::World) -> bool,
    m: Grown<H>,
    cfg: Seq<(Seq<char>, Val)>,
    i: int,
    again: Seq<(Seq<char>, Val)>,
    tool: Resizer,
    devices: Seq<Val>,
    devent: Val,
    device: Seq<char>,
    fs: Option<Seq<char>>,
    node: Seq<char>,
    partition: Seq<char>,
)
    requires
        tells_gone::<H>(gone),
        is_volume::<H>(still, tool, devent, device, fs, node, partition),
        still(m.world),
        grow_all::<H>(m, cfg).1 is Ok,
        0 <= i < grow_all::<H>(m, cfg).1->Ok_0.len(),
        says_volume_grown(grow_all::<H>(m, cfg).1->Ok_0[i]),
        decided::<H>(grow_all::<H>(m, cfg).0, again).1 == Ok::<_, Seq<char>>(Some((tool, devices))),
    ensures
        gone(grow_all::<H>(m, cfg).0.world),
        grow_all::<H>(grow_all::<H>(m, cfg).0, again).1 matches Ok(rows) ==> {
            &&& forall|j: int|
                0 <= j < rows.len() && (#[trigger] rows[j]).devent == devent ==> rows[j] == passed_over(devent)
            &&& devices.contains(devent) ==> exists|j: int|
                0 <= j < rows.len() && (#[trigger] rows[j]).devent == devent
        },
{
    reveal(is_volume);
    a_grown_volume_leaves_no_key::<H>(gone, m, cfg, i);
    a_run_keeps::<H>(still, m, cfg);
    without_the_key_volumes_are_passed_over::<H>(
        gone, still, grow_all::<H>(m, cfg).0, again, tool, devices, devent, device, fs, node, partition,
    );
}

/// With one encrypted volume to grow, on a partition that waits for nothing, a second
/// run succeeds with two outcomes: that of the partition, and that the volume was
/// skipped for want of the key.
pub proof fn a_second_run_skips_the_volume<H: Host>(
    gone: spec_fn(H::World) -> bool,
    still: spec_fn(H::World) -> bool,
    m: Grown<H>,
    cfg: Seq<(Seq<char>, Val)>,
    i: int,
    again: Seq<(Seq<char>, Val)>,
    tool: Resizer,
    devent: Val,
    device: Seq<char>,
    fs: Option<Seq<char>>,
    node: Seq<char>,
    partition: Seq<char>,
)
    requires
        tells_gone::<H>(gone),
        is_volume::<H>(still, tool, devent, device, fs, node, partition),
        forall|n: Grown<H>|
            still(n.world) ==> (#[trigger] round::<H>(n, tool, Val::Text(partition), Seq::empty())).1 matches Ok(
                RoundSpec::Row(_),
            ),
        still(m.world),
        grow_all::<H>(m, cfg).1 is Ok,
        0 <= i < grow_all::<H>(m, cfg).1->Ok_0.len(),
        says_volume_grown(grow_all::<H>(m, cfg).1->Ok_0[i]),
        decided::<H>(grow_all::<H>(m, cfg).0, again).1 == Ok::<_, Seq<char>>(Some((tool, seq![devent]))),
    ensures
        grow_all::<H>(grow_all::<H>(m, cfg).0, again).1 is Ok,
        ({
            let rows = grow_all::<H>(grow_all::<H>(m, cfg).0, again).1->Ok_0;
            &&& rows.len() == 2
            &&& rows[0].devent == Val::Text(partition)
            &&& rows[1] == passed_over(devent)
        }),
{
    reveal(is_volume);
    let m0 = grow_all::<H>(m, cfg).0;
    a_grown_volume_leaves_no_key::<H>(gone, m, cfg, i);
    a_run_keeps::<H>(still, m, cfg);
    decisions_keep::<H>(gone, m0, again);
    decisions_keep::<H>(still, m0, again);
    let m1 = decided::<H>(m0, again).0;
    let none = Seq::<Row>::empty();
    let part = Val::Text(partition);
    let fuel = u64::MAX as nat;
    // The volume waits for its partition.
    volume_round::<H>(gone, still, m1, tool, devent, device, fs, node, partition, none);
    round_kept::<H>(gone, m1, tool, devent, none);
    round_kept::<H>(still, m1, tool, devent, none);
    let m2 = round::<H>(m1, tool, devent, none).0;
    let queue = seq![part] + seq![devent];
    assert(seq![devent][0] == devent);
    assert(!seen(none, partition));
    // The partition comes first.
    a_row_names_its_entry::<H>(m2, tool, part, none);
    round_kept::<H>(gone, m2, tool, part, none);
    round_kept::<H>(still, m2, tool, part, none);
    let (m3, first) = round::<H>(m2, tool, part, none);
    let row = first->Ok_0->Row_0;
    assert(queue[0] == part);
    assert(queue.skip(1) =~= seq![devent]);
    let info = none.push(row);
    assert(info[0].devent == part);
    assert(seen(info, partition));
    // The volume is passed over.
    volume_round::<H>(gone, still, m3, tool, devent, device, fs, node, partition, info);
    assert(seq![devent].skip(1) =~= Seq::<Val>::empty());
    let all = info.push(passed_over(devent));
    let m4 = round::<H>(m3, tool, devent, info).0;
    assert(rounds::<H>(m4, tool, Seq::<Val>::empty(), all, (fuel - 3) as nat).1 == Ok::<_, Seq<char>>(all));
    assert(rounds::<H>(m3, tool, seq![devent], info, (fuel - 2) as nat).1 == Ok::<_, Seq<char>>(all));
    assert(rounds::<H>(m2, tool, queue, none, (fuel - 1) as nat).1 == Ok::<_, Seq<char>>(all));
    assert(rounds::<H>(m1, tool, seq![devent], none, fuel).1 == Ok::<_, Seq<char>>(all));
}

/// A scripted machine is one of which it can be told that its key file is gone.
pub proof fn a_script_tells_gone()
    ensures
        tells_gone::<Fixture>(|s: Script| s.keydata is None),
{
}

/// The scripts that are like one but for what a run can change: sizes, the key file, and
/// what was written down.
pub open spec fn alike(base: Script) -> spec_fn(Script) -> bool {
    |s: Script| s == (Script { sizes: s.sizes, keydata: s.keydata, calls: s.calls, log: s.log, ..base })
}

/// A scripted machine stays like it was, whatever it is asked.
pub proof fn a_script_stays_alike(base: Script)
    ensures
        is_kept::<Fixture>(alike(base)),
{
}

/// What a scripted machine shows to be an encrypted volume once, it always does.
pub proof fn a_script_keeps_its_volume(
    m: Grown<Fixture>,
    tool: Resizer,
    devent: Val,
    device: Seq<char>,
    fs: Option<Seq<char>>,
    node: Seq<char>,
    partition: Seq<char>,
)
    requires
        !(fs == Some("zfs"@) && tool == Resizer::GrowFS),
        entry_device::<Fixture>(m, devent).1 == Ok::<_, NoDevice>((device, fs)),
        ask_stat_mode::<Fixture>(m, device).1 matches Ok(mode) && is_device_mode(mode),
        mapped_node::<Fixture>(m, device).1 == Some(node),
        underlying::<Fixture>(m, device).1 == Ok::<_, Seq<char>>(partition),
        encrypted::<Fixture>(m, node, partition).1,
    ensures
        is_volume::<Fixture>(alike(m.world), tool, devent, device, fs, node, partition),
{
    reveal(is_volume);
    a_script_stays_alike(m.world);
}

}
