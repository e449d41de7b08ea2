//! What every call to a machine keeps is kept by whole runs.

use vstd::prelude::*;

use crate::cc::growpart::devices::{
    call_tool, encrypted, entry_device, grow_encrypted, grow_mapped, mapped_node, or_none, part_info, round, rounds,
    underlying, Row, RoundSpec,
};
use crate::cc::growpart::host::{Call, Grown, Host};
use crate::cc::growpart::resize::{
    choose_tool, first_usable, grow, grow_with_gpart, grow_with_growfs, grow_with_growpart, grow_within, size_of,
    then_size, usable, Resizer,
};
use crate::cc::growpart::{decided, grow_all, row_told, rows_told, settings_decided};
use crate::value::Val;

verus! {

/// Whether something that holds of a machine still holds after any call.
pub open spec fn is_kept<H: Host>(kept: spec_fn(H::World) -> bool) -> bool {
    forall|w: H::World, call: Call| kept(w) ==> kept((#[trigger] H::reply(w, call)).0)
}

proof fn sizes_keep<H: Host>(kept: spec_fn(H::World) -> bool, m: Grown<H>, path: Seq<char>, fs: Option<Seq<char>>)
    requires
        is_kept::<H>(kept),
        kept(m.world),
    ensures
        kept(size_of::<H>(m, path, fs).0.world),
{
}

pub(crate) proof fn tools_keep<H: Host>(
    kept: spec_fn(H::World) -> bool,
    m: Grown<H>,
    tool: Resizer,
    disk: Seq<char>,
    number: Seq<char>,
    path: Seq<char>,
    fs: Option<Seq<char>>,
)
    requires
        is_kept::<H>(kept),
        kept(m.world),
    ensures
        kept(grow::<H>(m, tool, disk, number, path, fs).0.world),
{
    assert forall|n: Grown<H>| kept(n.world) implies kept((#[trigger] size_of::<H>(n, path, fs)).0.world) by {
        sizes_keep::<H>(kept, n, path, fs);
    }
    assert forall|n: Grown<H>, before: Option<u64>| kept(n.world) implies kept(
        (#[trigger] then_size::<H>(n, before, path, fs)).0.world,
    ) by {
        sizes_keep::<H>(kept, n, path, fs);
    }
    assert forall|n: Grown<H>, tmp: Seq<char>| kept(n.world) implies kept(
        (#[trigger] grow_within::<H>(n, tmp, disk, number)).0.world,
    ) by {}
    assert(kept(grow_with_growpart::<H>(m, disk, number, path, fs).0.world));
    assert(kept(grow_with_growfs::<H>(m, path, fs).0.world));
    assert(kept(grow_with_gpart::<H>(m, disk, number, path, fs).0.world));
}

pub(crate) proof fn entries_keep<H: Host>(kept: spec_fn(H::World) -> bool, m: Grown<H>, devent: Val)
    requires
        is_kept::<H>(kept),
        kept(m.world),
    ensures
        kept(entry_device::<H>(m, devent).0.world),
{
}

pub(crate) proof fn parts_keep<H: Host>(kept: spec_fn(H::World) -> bool, m: Grown<H>, device: Seq<char>)
    requires
        is_kept::<H>(kept),
        kept(m.world),
    ensures
        kept(part_info::<H>(m, device).0.world),
{
}

pub(crate) proof fn lines_keep<H: Host>(kept: spec_fn(H::World) -> bool, m: Grown<H>, rows: Seq<Row>)
    requires
        is_kept::<H>(kept),
        kept(m.world),
    ensures
        kept(rows_told::<H>(m, rows).world),
    decreases rows.len(),
{
    if rows.len() > 0 {
        lines_keep::<H>(kept, row_told::<H>(m, rows[0]), rows.skip(1));
    }
}

proof fn choices_keep<H: Host>(kept: spec_fn(H::World) -> bool, m: Grown<H>, mode: Val, devices: Seq<Val>)
    requires
        is_kept::<H>(kept),
        kept(m.world),
    ensures
        kept(choose_tool::<H>(m, mode, devices).0.world),
{
    assert forall|n: Grown<H>, tool: Resizer| kept(n.world) implies kept(
        (#[trigger] usable::<H>(n, tool, devices)).0.world,
    ) by {}
    assert(kept(first_usable::<H>(m, devices).0.world));
}

pub(crate) proof fn decisions_keep<H: Host>(kept: spec_fn(H::World) -> bool, m: Grown<H>, cfg: Seq<(Seq<char>, Val)>)
    requires
        is_kept::<H>(kept),
        kept(m.world),
    ensures
        kept(decided::<H>(m, cfg).0.world),
{
    assert forall|n: Grown<H>, mode: Val, devices: Seq<Val>| kept(n.world) implies kept(
        (#[trigger] choose_tool::<H>(n, mode, devices)).0.world,
    ) by {
        choices_keep::<H>(kept, n, mode, devices);
    }
    assert forall|n: Grown<H>, s: Seq<(Seq<char>, Val)>| kept(n.world) implies kept(
        (#[trigger] settings_decided::<H>(n, s)).0.world,
    ) by {}
}

pub(crate) proof fn volumes_kept<H: Host>(
    kept: spec_fn(H::World) -> bool,
    m: Grown<H>,
    device: Seq<char>,
    node: Seq<char>,
    info: Seq<Row>,
)
    requires
        is_kept::<H>(kept),
        kept(m.world),
    ensures
        kept(grow_mapped::<H>(m, device, node, info).0.world),
{
    let (m1, partition) = underlying::<H>(m, device);
    if let Ok(partition) = partition {
        let (m2, luks) = encrypted::<H>(m1, node, partition);
        assert(kept(m2.world));
        assert(kept(grow_encrypted::<H>(m2, device, partition).0.world));
    }
}

/// The outcome of a round is that of its entry.
pub(crate) proof fn a_row_names_its_entry<H: Host>(m: Grown<H>, tool: Resizer, devent: Val, info: Seq<Row>)
    ensures
        round::<H>(m, tool, devent, info).1 matches Ok(RoundSpec::Row(row)) ==> row.devent == devent,
{
}

pub(crate) proof fn round_kept<H: Host>(
    kept: spec_fn(H::World) -> bool,
    m: Grown<H>,
    tool: Resizer,
    devent: Val,
    info: Seq<Row>,
)
    requires
        is_kept::<H>(kept),
        kept(m.world),
    ensures
        kept(round::<H>(m, tool, devent, info).0.world),
{
    assert forall|n: Grown<H>, disk: Option<Seq<char>>, number: Option<Seq<char>>, device: Seq<char>, fs: Option<Seq<char>>|
        kept(n.world) implies kept(
        (#[trigger] call_tool::<H>(n, tool, devent, disk, number, device, fs)).0.world,
    ) by {
        tools_keep::<H>(kept, n, tool, or_none(disk), or_none(number), device, fs);
    }
    assert forall|n: Grown<H>, device: Seq<char>| kept(n.world) implies kept(
        (#[trigger] part_info::<H>(n, device)).0.world,
    ) by {
        parts_keep::<H>(kept, n, device);
    }
    assert forall|n: Grown<H>, device: Seq<char>, node: Seq<char>| kept(n.world) implies kept(
        (#[trigger] grow_mapped::<H>(n, device, node, info)).0.world,
    ) by {
        volumes_kept::<H>(kept, n, device, node, info);
    }
    entries_keep::<H>(kept, m, devent);
}

pub(crate) proof fn rounds_kept<H: Host>(
    kept: spec_fn(H::World) -> bool,
    m: Grown<H>,
    tool: Resizer,
    queue: Seq<Val>,
    info: Seq<Row>,
    fuel: nat,
)
    requires
        is_kept::<H>(kept),
        kept(m.world),
    ensures
        kept(rounds::<H>(m, tool, queue, info, fuel).0.world),
    decreases fuel,
{
    if queue.len() > 0 && fuel > 0 {
        let (m1, done) = round::<H>(m, tool, queue[0], info);
        round_kept::<H>(kept, m, tool, queue[0], info);
        match done {
            Err(_) => {},
            Ok(RoundSpec::Row(row)) => {
                rounds_kept::<H>(kept, m1, tool, queue.skip(1), info.push(row), (fuel - 1) as nat);
            },
            Ok(RoundSpec::Wait(partition)) => {
                rounds_kept::<H>(kept, m1, tool, seq![Val::Text(partition)] + queue, info, (fuel - 1) as nat);
            },
        }
    }
}

/// A run keeps what every call keeps.
pub proof fn a_run_keeps<H: Host>(kept: spec_fn(H::World) -> bool, m: Grown<H>, cfg: Seq<(Seq<char>, Val)>)
    requires
        is_kept::<H>(kept),
        kept(m.world),
    ensures
        kept(grow_all::<H>(m, cfg).0.world),
{
    let (m1, plan) = decided::<H>(m, cfg);
    decisions_keep::<H>(kept, m, cfg);
    if let Ok(Some((tool, devices))) = plan {
        rounds_kept::<H>(kept, m1, tool, devices, Seq::empty(), u64::MAX as nat);
        let (m2, rows) = rounds::<H>(m1, tool, devices, Seq::empty(), u64::MAX as nat);
        if let Ok(rows) = rows {
            lines_keep::<H>(kept, m2, rows);
        }
    }
}

/// Whether no device is mapped, on every machine of a kind that calls keep.
pub open spec fn maps_nothing<H: Host>(still: spec_fn(H::World) -> bool) -> bool {
    &&& is_kept::<H>(still)
    &&& forall|n: Grown<H>, device: Seq<char>|
        still(n.world) ==> (#[trigger] mapped_node::<H>(n, device)).1 is None
}

proof fn nothing_waits<H: Host>(
    still: spec_fn(H::World) -> bool,
    m: Grown<H>,
    tool: Resizer,
    devent: Val,
    info: Seq<Row>,
)
    requires
        maps_nothing::<H>(still),
        still(m.world),
    ensures
        round::<H>(m, tool, devent, info).1 matches Ok(done) ==> done is Row,
{
    entries_keep::<H>(still, m, devent);
}

/// Where no device is mapped there is one outcome for each entry, in the order in which
/// the entries come, behind what was known.
pub proof fn one_outcome_for_each_entry<H: Host>(
    still: spec_fn(H::World) -> bool,
    m: Grown<H>,
    tool: Resizer,
    queue: Seq<Val>,
    info: Seq<Row>,
    fuel: nat,
)
    requires
        maps_nothing::<H>(still),
        still(m.world),
    ensures
        rounds::<H>(m, tool, queue, info, fuel).1 matches Ok(rows) ==> {
            &&& rows.len() == info.len() + queue.len()
            &&& rows.take(info.len() as int) == info
            &&& forall|i: int| 0 <= i < queue.len() ==> (#[trigger] rows[info.len() + i]).devent == queue[i]
        },
    decreases fuel,
{
    if queue.len() == 0 {
        assert(info.take(info.len() as int) =~= info);
    } else if fuel > 0 {
        let (m1, done) = round::<H>(m, tool, queue[0], info);
        round_kept::<H>(still, m, tool, queue[0], info);
        nothing_waits::<H>(still, m, tool, queue[0], info);
        a_row_names_its_entry::<H>(m, tool, queue[0], info);
        if let Ok(RoundSpec::Row(row)) = done {
            let more = info.push(row);
            one_outcome_for_each_entry::<H>(still, m1, tool, queue.skip(1), more, (fuel - 1) as nat);
            if let Ok(rows) = rounds::<H>(m, tool, queue, info, fuel).1 {
                assert(rows.take(info.len() as int) =~= rows.take(more.len() as int).take(info.len() as int));
                assert(more.take(info.len() as int) =~= info);
                assert(rows[info.len() as int] == rows.take(more.len() as int)[info.len() as int]);
                assert forall|i: int| 0 <= i < queue.len() implies (#[trigger] rows[info.len() + i]).devent
                    == queue[i] by {
                    if i > 0 {
                        assert(rows[more.len() + (i - 1)].devent == queue.skip(1)[i - 1]);
                    }
                }
            }
        }
    }
}

/// Where no device is mapped a run has one outcome for each device, in the order given.
pub proof fn one_outcome_for_each_device<H: Host>(
    still: spec_fn(H::World) -> bool,
    m: Grown<H>,
    cfg: Seq<(Seq<char>, Val)>,
    tool: Resizer,
    devices: Seq<Val>,
)
    requires
        maps_nothing::<H>(still),
        still(m.world),
        decided::<H>(m, cfg).1 == Ok::<_, Seq<char>>(Some((tool, devices))),
    ensures
        grow_all::<H>(m, cfg).1 matches Ok(rows) ==> {
            &&& rows.len() == devices.len()
            &&& forall|i: int| 0 <= i < devices.len() ==> (#[trigger] rows[i]).devent == devices[i]
        },
{
    let m1 = decided::<H>(m, cfg).0;
    decisions_keep::<H>(still, m, cfg);
    let none = Seq::<Row>::empty();
    one_outcome_for_each_entry::<H>(still, m1, tool, devices, none, u64::MAX as nat);
    if let Ok(rows) = grow_all::<H>(m, cfg).1 {
        assert forall|i: int| 0 <= i < devices.len() implies (#[trigger] rows[i]).devent == devices[i] by {
            assert(rows[none.len() + i].devent == devices[i]);
        }
    }
}

}
