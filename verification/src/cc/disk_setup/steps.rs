//! What disk setup asks of the machine, step by step, and what it makes of the
//! answers.

use vstd::prelude::*;

use crate::case::uppercase;
use crate::cc::disk_setup::{
    disk_set_up, filesystem_set_up, fs_resolved, make_all_fs, moved, partition_all, set_up, set_up_disks,
    set_up_filesystems,
};
use crate::cc::disk_setup::format::{
    filled_from, filled_in, force_flag, make_fs, make_with_command, request_of, target, Request,
};
use crate::cc::disk_setup::host::{informed, logged, Answer, Call, Host};
use crate::cc::disk_setup::layout::{
    all_agree, full_code, gpt_plan, has_layout, layout_fits, percent_text, types_agree, wanted_types, PartSpec,
};
use crate::cc::disk_setup::make::{
    checked_layout, checked_use, code_of, creation_told, left_justified, occupied, partition, partition_resolved,
    parts_text, purge, ready, sfdisk_script, sfdisk_type, sgdisk_parts, table_written, wipe_rows, write_gpt,
    write_mbr, write_sfdisk, write_sgdisk,
};
use crate::cc::disk_setup::probe::{
    column_is, columns, enumerate, filesystem, find_node, in_use, is_kind, node_of, pick, row_of, rows_of, sides,
    tags_of, with_column, with_tag, Disks, FsInfo, Row, Wanted,
};
use crate::cc::disk_setup::table::{
    behind_header, disk_size, gpt_layout, is_digits, last_number, listed_types, mbr_layout, mbr_types,
    partition_types, printed_number, reread, settle, sixth_fields,
};
use crate::machine::{asked, lookup};
use crate::number::{dec, dec_int};
use crate::show::{repr, show};
use crate::space::{first_of, fold, trim, trim_start, within, words, Class};
use crate::text::{has_is_somewhere, holds, join, split, stands_at, starts};
use crate::text::laws::{last_found, pieces_make_up_the_text};
use crate::value::{get, get_after_put, index_of_is_first, put, shift_keeps_others, shift_removed, Val};

verus! {

/// A command without input that must end well.
pub open spec fn plain_command(argv: Seq<Seq<char>>) -> Call {
    Call::Subp { argv, data: None, env: Seq::empty(), rcs: seq![0int] }
}

/// A command that reads a script.
pub open spec fn script_command(argv: Seq<Seq<char>>, script: Seq<char>) -> Call {
    Call::Subp { argv, data: Some(script), env: Seq::empty(), rcs: seq![0int] }
}

/// A command with its messages in English.
pub open spec fn english_command(argv: Seq<Seq<char>>) -> Call {
    Call::Subp { argv, data: None, env: seq![("LANG"@, "C"@)], rcs: seq![0int] }
}

/// What a machine answers to a call.
pub open spec fn said<H: Host>(world: H::World, call: Call) -> Answer {
    H::reply(world, call).1
}

/// The state of a machine after a call.
pub open spec fn next<H: Host>(world: H::World, call: Call) -> H::World {
    H::reply(world, call).0
}

// ---------------------------------------------------------------------------
// Writing tables

/// A short text is filled up behind its end, a long one is kept.
pub proof fn filling_up(s: Seq<char>, width: nat, fill: char)
    ensures
        left_justified(s, width, fill).len() == if s.len() < width {
            width
        } else {
            s.len()
        },
        left_justified(s, width, fill).take(s.len() as int) == s,
        forall|i: int|
            s.len() <= i < left_justified(s, width, fill).len() ==> #[trigger] left_justified(s, width, fill)[i]
                == fill,
    decreases width - s.len(),
{
    let r = left_justified(s, width, fill);
    if s.len() < width {
        let t = s.push(fill);
        filling_up(t, width, fill);
        assert(r.take(s.len() as int) =~= r.take(t.len() as int).take(s.len() as int));
        assert(t.take(s.len() as int) =~= s);
        assert forall|i: int| s.len() <= i < r.len() implies #[trigger] r[i] == fill by {
            if i == s.len() {
                assert(r.take(t.len() as int)[i] == t[i]);
            }
        }
    } else {
        assert(r.take(s.len() as int) =~= s);
    }
}

/// A type of two characters is made one of four by two zeros behind it.
pub proof fn two_characters_get_two_zeros(kind: Seq<char>)
    ensures
        kind.len() == 2 ==> code_of(Val::Text(kind)) == kind + "00"@,
        kind.len() == 2 ==> full_code(kind) == kind + "00"@,
        kind.len() >= 4 ==> code_of(Val::Text(kind)) == kind && full_code(kind) == kind,
{
    reveal_strlit("00");
    filling_up(kind, 4, '0');
    let r = code_of(Val::Text(kind));
    if kind.len() == 2 {
        assert(r[0] == r.take(2)[0] && r[1] == r.take(2)[1]);
        assert(r =~= kind + "00"@);
    }
}

/// `sgdisk` makes one partition after the other: the one at place `i` gets the number
/// `n + i`, runs from its start to its end, and has its type set where it has one.
pub proof fn partitions_are_made_one_by_one<H: Host>(m: Disks<H>, device: Seq<char>, list: Seq<PartSpec>, n: nat) -> (at:
    Seq<int>)
    requires
        sgdisk_parts::<H>(m, device, list, n).1 is Ok,
    ensures
        ({
            let calls = sgdisk_parts::<H>(m, device, list, n).0.calls;
            &&& at.len() == list.len() + 1
            &&& at[0] == m.calls.len()
            &&& at.last() == calls.len()
            &&& calls.take(m.calls.len() as int) == m.calls
            &&& forall|i: int|
                0 <= i < list.len() ==> {
                    &&& (#[trigger] at[i]) + 1 <= at[i + 1] <= calls.len()
                    &&& calls[at[i]] == plain_command(
                        seq!["sgdisk"@, "-n"@, dec((n + i) as nat) + ":"@ + list[i].start + ":"@ + list[i].end, device],
                    )
                    &&& list[i].kind is Null ==> at[i + 1] == at[i] + 1
                    &&& list[i].kind !is Null ==> at[i + 1] == at[i] + 2 && calls[at[i] + 1] == plain_command(
                        seq!["sgdisk"@, "-t"@, dec((n + i) as nat) + ":"@ + code_of(list[i].kind), device],
                    )
                }
        }),
    decreases list.len(),
{
    let calls = sgdisk_parts::<H>(m, device, list, n).0.calls;
    if list.len() == 0 {
        assert(calls.take(m.calls.len() as int) =~= m.calls);
        seq![m.calls.len() as int]
    } else {
        let part = list[0];
        let make = plain_command(seq!["sgdisk"@, "-n"@, dec(n) + ":"@ + part.start + ":"@ + part.end, device]);
        let m1 = asked(m, make, next::<H>(m.world, make));
        let set = plain_command(seq!["sgdisk"@, "-t"@, dec(n) + ":"@ + code_of(part.kind), device]);
        let m2 = if part.kind is Null {
            m1
        } else {
            asked(m1, set, next::<H>(m1.world, set))
        };
        let more = partitions_are_made_one_by_one::<H>(m2, device, list.skip(1), n + 1);
        let at = seq![m.calls.len() as int] + more;
        assert(calls == sgdisk_parts::<H>(m2, device, list.skip(1), n + 1).0.calls);
        assert(calls.take(m.calls.len() as int) =~= calls.take(m2.calls.len() as int).take(m.calls.len() as int));
        assert(m2.calls.take(m.calls.len() as int) =~= m.calls);
        assert(calls[m.calls.len() as int] == calls.take(m2.calls.len() as int)[m.calls.len() as int]);
        if part.kind !is Null {
            assert(calls[m.calls.len() as int + 1] == calls.take(m2.calls.len() as int)[m.calls.len() as int + 1]);
        }
        assert(at[1] == more[0]);
        assert forall|i: int| 0 <= i < list.len() implies {
            &&& (#[trigger] at[i]) + 1 <= at[i + 1] <= calls.len()
            &&& calls[at[i]] == plain_command(
                seq!["sgdisk"@, "-n"@, dec((n + i) as nat) + ":"@ + list[i].start + ":"@ + list[i].end, device],
            )
            &&& list[i].kind is Null ==> at[i + 1] == at[i] + 1
            &&& list[i].kind !is Null ==> at[i + 1] == at[i] + 2 && calls[at[i] + 1] == plain_command(
                seq!["sgdisk"@, "-t"@, dec((n + i) as nat) + ":"@ + code_of(list[i].kind), device],
            )
        } by {
            if i > 0 {
                assert(at[i] == more[i - 1]);
                assert(at[i + 1] == more[i]);
                assert(list[i] == list.skip(1)[i - 1]);
                assert(n + 1 + (i - 1) == n + i);
            }
        }
        at
    }
}

/// `sgdisk` clears the disk before it makes the first partition, which has the number
/// one.
pub proof fn a_disk_is_cleared_first<H: Host>(m: Disks<H>, device: Seq<char>, list: Seq<PartSpec>)
    ensures
        ({
            let clear = plain_command(seq!["sgdisk"@, "-Z"@, device]);
            let (m1, r) = write_sgdisk::<H>(m, device, list);
            let n = m.calls.len() as int;
            let cleared = said::<H>(m.world, clear)->Output_0;
            let made = sgdisk_parts::<H>(asked(m, clear, next::<H>(m.world, clear)), device, list, 1);
            &&& cleared is Err ==> r is Err && m1.calls[n] == clear && m1.calls.len() == n + 2
            &&& cleared is Ok ==> (r is Ok <==> made.1 is Ok)
            &&& cleared is Ok && r is Ok ==> m1 == made.0
        }),
{
}

/// A table of the newer kind is written with `sgdisk` where that is there, and else
/// with `sfdisk`; then the kernel reads it.
pub proof fn which_tool_writes_the_table<H: Host>(
    m: Disks<H>,
    device: Seq<char>,
    list: Seq<PartSpec>,
    ids: Seq<(Seq<char>, Seq<char>)>,
)
    ensures
        ({
            let ask = Call::Which("sgdisk"@);
            let tool = said::<H>(m.world, ask)->MaybeText_0;
            let m1 = asked(m, ask, next::<H>(m.world, ask));
            let first = write_sgdisk::<H>(m1, device, list);
            let second = write_sfdisk::<H>(m1, device, list, ids);
            let done = write_gpt::<H>(m, device, list, ids);
            &&& tool is Some && first.1 is Ok ==> done == reread::<H>(first.0, device)
            &&& tool is Some && first.1 is Err ==> done == first
            &&& tool is None && second.1 is Ok ==> done == reread::<H>(second.0, device)
            &&& tool is None && second.1 is Err ==> done == second
        }),
{
}

/// A script for `sfdisk` has a line for each partition: one that takes what is left
/// has no size.
pub proof fn a_script_grows_by_a_line(ids: Seq<(Seq<char>, Seq<char>)>, list: Seq<PartSpec>, part: PartSpec)
    ensures
        sfdisk_script(ids, Seq::empty()) == Seq::<char>::empty(),
        part.end == "0"@ ==> sfdisk_script(ids, list.push(part)) == sfdisk_script(ids, list) + ",,"@ + sfdisk_type(
            ids,
            part.kind,
        ) + "\n"@,
        part.end != "0"@ ==> sfdisk_script(ids, list.push(part)) == sfdisk_script(ids, list) + ","@ + part.end + ","@
            + sfdisk_type(ids, part.kind) + "\n"@,
{
    assert(list.push(part).drop_last() =~= list);
    let before = sfdisk_script(ids, list);
    let kind = sfdisk_type(ids, part.kind);
    assert(before + (",,"@ + kind + "\n"@) =~= before + ",,"@ + kind + "\n"@);
    assert(before + (","@ + part.end + ","@ + kind + "\n"@) =~= before + ","@ + part.end + ","@ + kind + "\n"@);
}

/// A type has the name that the table of names has for its code; without one it is a
/// Linux filesystem.
pub proof fn the_name_of_a_type(ids: Seq<(Seq<char>, Seq<char>)>, kind: Seq<char>)
    requires
        kind.len() == 2,
    ensures
        sfdisk_type(ids, Val::Text(kind)).len() == 36,
        lookup(ids, kind + "00"@) is Some && (lookup(ids, kind + "00"@)->0).len() == 36 ==> sfdisk_type(
            ids,
            Val::Text(kind),
        ) == lookup(ids, kind + "00"@)->0,
        lookup(ids, kind + "00"@) is None ==> sfdisk_type(ids, Val::Text(kind))
            == "0FC63DAF-8483-4772-8E79-3D69D8477DE4"@,
        sfdisk_type(ids, Val::Null) == "0FC63DAF-8483-4772-8E79-3D69D8477DE4"@ || lookup(ids, "None"@) is Some,
{
    reveal_strlit("0FC63DAF-8483-4772-8E79-3D69D8477DE4");
    reveal_strlit("00");
    reveal_strlit("None");
    two_characters_get_two_zeros(kind);
    two_characters_get_two_zeros("None"@);
    reveal_with_fuel(repr, 2);
    assert(show(Val::Null) == "None"@);
    assert(code_of(Val::Null) == code_of(Val::Text("None"@)));
}

/// The scripts go to `sfdisk` as its input: of the older kind with a line feed behind
/// the last line, of the newer as they are.
pub proof fn scripts_go_to_sfdisk<H: Host>(
    m: Disks<H>,
    device: Seq<char>,
    script: Seq<char>,
    list: Seq<PartSpec>,
    ids: Seq<(Seq<char>, Seq<char>)>,
)
    ensures
        ({
            let write = script_command(seq!["sfdisk"@, "--force"@, device], script + "\n"@);
            let (m1, r) = write_mbr::<H>(m, device, script);
            let done = said::<H>(m.world, write)->Output_0;
            &&& done is Err ==> r is Err && m1.calls == m.calls.push(write)
            &&& done is Ok ==> (m1, r) == reread::<H>(asked(m, write, next::<H>(m.world, write)), device)
        }),
        list.len() == 0 ==> {
            let write = script_command(seq!["sfdisk"@, "-X"@, "gpt"@, "--force"@, device], sfdisk_script(ids, list));
            let (m1, r) = write_sfdisk::<H>(m, device, list, ids);
            m1.calls[m.calls.len() as int] == write && (r is Ok <==> said::<H>(m.world, write)->Output_0 is Ok)
        },
        ({
            let (m1, r) = write_sfdisk::<H>(m, device, list, ids);
            let write = script_command(seq!["sfdisk"@, "-X"@, "gpt"@, "--force"@, device], sfdisk_script(ids, list));
            r is Ok ==> m1.calls.last() == write
        }),
{
}

/// A disk that is to have partitions of the older kind without more being said gets one,
/// of a Linux filesystem, over the whole disk. Other kinds of tables than the two are
/// refused.
pub proof fn one_partition_over_the_whole_disk<H: Host>(
    m: Disks<H>,
    device: Seq<char>,
    layout: Val,
    ids: Seq<(Seq<char>, Seq<char>)>,
    kind: Seq<char>,
)
    ensures
        kind != "mbr"@ && kind != "gpt"@ ==> table_written::<H>(m, kind, device, layout, ids).1 is Err,
        table_written::<H>(m, "mbr"@, device, Val::Bool(true), ids).1 is Ok ==> table_written::<H>(
            m,
            "mbr"@,
            device,
            Val::Bool(true),
            ids,
        ).0.calls.contains(script_command(seq!["sfdisk"@, "--force"@, device], ",,83"@ + "\n"@)),
{
    let m0 = logged::<H>(m, "Checking for device size of "@ + device);
    let (m1, size) = disk_size::<H>(m0, device);
    let write = script_command(seq!["sfdisk"@, "--force"@, device], ",,83"@ + "\n"@);
    if table_written::<H>(m, "mbr"@, device, Val::Bool(true), ids).1 is Ok {
        let m2 = creation_told::<H>(logged::<H>(m1, "Calculating partition layout"@), device, ",,83"@);
        let m3 = asked(m2, write, next::<H>(m2.world, write));
        let last = m3.calls.len() - 1;
        assert(m3.calls[last] == write);
        assert(reread::<H>(m3, device).0.calls[last] == write);
    }
}

/// Of the newer kind, the partitions are those of the plan.
pub proof fn a_plan_is_carried_out<H: Host>(
    m: Disks<H>,
    device: Seq<char>,
    layout: Val,
    ids: Seq<(Seq<char>, Seq<char>)>,
    bytes: int,
    sector: int,
    list: Seq<PartSpec>,
)
    requires
        disk_size::<H>(logged::<H>(m, "Checking for device size of "@ + device), device).1 == Ok::<
            (int, int),
            Seq<char>,
        >((bytes, sector)),
        gpt_plan::<H>(
            logged::<H>(
                disk_size::<H>(logged::<H>(m, "Checking for device size of "@ + device), device).0,
                "Calculating partition layout"@,
            ),
            (bytes, sector),
            layout,
        ).1 == Ok::<Seq<PartSpec>, Seq<char>>(list),
    ensures
        ({
            let m1 = logged::<H>(
                disk_size::<H>(logged::<H>(m, "Checking for device size of "@ + device), device).0,
                "Calculating partition layout"@,
            );
            let m2 = creation_told::<H>(gpt_plan::<H>(m1, (bytes, sector), layout).0, device, parts_text(list));
            table_written::<H>(m, "gpt"@, device, layout, ids) == write_gpt::<H>(m2, device, list, ids)
        }),
{
    reveal_strlit("mbr");
    reveal_strlit("gpt");
    assert("mbr"@[0] == 'm' && "gpt"@[0] == 'g');
}

// ---------------------------------------------------------------------------
// Asking about disks

/// The size of a disk is asked for in bytes, and that of a sector after it.
pub proof fn the_size_of_a_disk<H: Host>(m: Disks<H>, device: Seq<char>)
    ensures
        ({
            let whole = plain_command(seq!["blockdev"@, "--getsize64"@, device]);
            let sector = plain_command(seq!["blockdev"@, "--getss"@, device]);
            let (m1, r) = disk_size::<H>(m, device);
            let n = m.calls.len() as int;
            let a = said::<H>(m.world, whole)->Output_0;
            let b = said::<H>(next::<H>(m.world, whole), sector)->Output_0;
            &&& m1.calls[n] == whole
            &&& a is Err ==> r is Err && m1.calls.len() == n + 1
            &&& a is Ok ==> m1.calls.len() == n + 2 && m1.calls[n + 1] == sector
            &&& r is Ok ==> a is Ok && b is Ok && printed_number((a->Ok_0).0) == Ok::<int, Seq<char>>((r->Ok_0).0)
                && printed_number((b->Ok_0).0) == Ok::<int, Seq<char>>((r->Ok_0).1) && (r->Ok_0).1 != 0
            &&& a is Ok && b is Ok && printed_number((a->Ok_0).0) is Ok && printed_number((b->Ok_0).0) is Ok
                && printed_number((b->Ok_0).0) != Ok::<int, Seq<char>>(0int) ==> r is Ok
        }),
{
}

/// The events of devices are waited for where there is the tool for it.
pub proof fn waiting_for_events<H: Host>(m: Disks<H>)
    ensures
        ({
            let ask = Call::Which("udevadm"@);
            let wait = plain_command(seq!["udevadm"@, "settle"@]);
            let (m1, r) = settle::<H>(m);
            let tool = said::<H>(m.world, ask)->MaybeText_0;
            let waited = said::<H>(next::<H>(m.world, ask), wait)->Output_0;
            &&& tool is None ==> m1.calls == m.calls.push(ask) && r is Ok
            &&& tool is Some ==> m1.calls == m.calls.push(ask).push(wait) && (r is Ok <==> waited is Ok)
        }),
{
}

/// The kernel is made to read a table again with one of two tools, between two waits;
/// that it could not is no failure.
pub proof fn reading_a_table_again<H: Host>(m: Disks<H>, device: Seq<char>)
    ensures
        ({
            let ask = Call::Which("partprobe"@);
            let tool = said::<H>(m.world, ask)->MaybeText_0;
            let probe = if tool is Some {
                plain_command(seq!["partprobe"@, device])
            } else {
                plain_command(seq!["blockdev"@, "--rereadpt"@, device])
            };
            let waited = settle::<H>(asked(m, ask, next::<H>(m.world, ask)));
            let (m1, r) = reread::<H>(m, device);
            let k = waited.0.calls.len() as int;
            let read = asked(waited.0, probe, next::<H>(waited.0.world, probe));
            &&& m1.calls[m.calls.len() as int] == ask
            &&& waited.1 is Err ==> (m1, r) == waited
            &&& waited.1 is Ok ==> m1.calls.len() > k && m1.calls[k] == probe
            &&& waited.1 is Ok && said::<H>(waited.0.world, probe)->Output_0 is Ok ==> (m1, r) == settle::<H>(read)
            &&& waited.1 is Ok && settle::<H>(read).1 is Ok && said::<H>(waited.0.world, probe)->Output_0 is Ok ==> r
                is Ok
        }),
{
}

/// A device that is not there is waited for once; one that is there then is no failure.
pub proof fn a_device_is_waited_for<H: Host>(m: Disks<H>, device: Seq<char>)
    ensures
        ({
            let ask = Call::Exists(device);
            let (m1, r) = ready::<H>(m, device);
            let first = said::<H>(m.world, ask)->Flag_0;
            let waited = settle::<H>(asked(m, ask, next::<H>(m.world, ask)));
            let second = said::<H>(waited.0.world, ask)->Flag_0;
            let asked_twice = asked(waited.0, ask, next::<H>(waited.0.world, ask));
            &&& m1.calls[m.calls.len() as int] == ask
            &&& first ==> (m1, r) == waited
            &&& !first && waited.1 is Ok && second ==> (m1, r) == settle::<H>(asked_twice)
            &&& !first && waited.1 is Ok && !second ==> m1 == asked_twice && r is Err
        }),
{
}

/// A device is listed with its name, type, filesystem and label, one line a device.
pub proof fn how_a_device_is_listed<H: Host>(m: Disks<H>, device: Seq<char>)
    ensures
        ({
            let list = plain_command(
                seq!["lsblk"@, "--pairs"@, "--output"@, "NAME,TYPE,FSTYPE,LABEL"@, device],
            );
            let (m1, r) = enumerate::<H>(m, device, false);
            m1.calls == m.calls.push(list) && (said::<H>(m.world, list)->Output_0 is Err ==> r is Err)
        }),
        ({
            let list = plain_command(
                seq!["lsblk"@, "--pairs"@, "--output"@, "NAME,TYPE,FSTYPE,LABEL"@, device, "--nodeps"@],
            );
            let (m1, r) = enumerate::<H>(m, device, true);
            m1.calls == m.calls.push(list) && (said::<H>(m.world, list)->Output_0 is Err ==> r is Err)
        }),
{
    let base = seq!["lsblk"@, "--pairs"@, "--output"@, "NAME,TYPE,FSTYPE,LABEL"@, device];
    assert(base.push("--nodeps"@) =~= seq![
        "lsblk"@,
        "--pairs"@,
        "--output"@,
        "NAME,TYPE,FSTYPE,LABEL"@,
        device,
        "--nodeps"@,
    ]);
}

/// A column goes where its name says, and leaves the others as they are.
pub proof fn a_column_has_its_place(row: Row, value: Seq<char>)
    ensures
        with_column(row, "NAME"@, value) == (Row { name: Some(value), ..row }),
        with_column(row, "TYPE"@, value) == (Row { kind: Some(value), ..row }),
        with_column(row, "FSTYPE"@, value) == (Row { fstype: Some(value), ..row }),
        with_column(row, "LABEL"@, value) == (Row { label: Some(value), ..row }),
        row_of(Seq::empty()) == (Row { name: None, kind: None, fstype: None, label: None }),
{
    reveal_strlit("NAME");
    reveal_strlit("TYPE");
    reveal_strlit("FSTYPE");
    reveal_strlit("LABEL");
    reveal_strlit("name");
    reveal_strlit("type");
    reveal_strlit("fstype");
    reveal_strlit("label");
    assert(fold("NAME"@) =~= "name"@);
    assert(fold("TYPE"@) =~= "type"@);
    assert(fold("FSTYPE"@) =~= "fstype"@);
    assert(fold("LABEL"@) =~= "label"@);
    assert("name"@.len() == 4 && "type"@.len() == 4 && "fstype"@.len() == 6 && "label"@.len() == 5);
    assert("name"@[0] == 'n' && "type"@[0] == 't');
}

/// The same of what is known of a filesystem.
pub proof fn a_tag_has_its_place(info: FsInfo, value: Seq<char>)
    ensures
        with_tag(info, "LABEL"@, value) == (FsInfo { label: Some(value), ..info }),
        with_tag(info, "TYPE"@, value) == (FsInfo { fs_type: Some(value), ..info }),
        with_tag(info, "UUID"@, value) == (FsInfo { uuid: Some(value), ..info }),
        tags_of(Seq::empty()) == (FsInfo { label: None, fs_type: None, uuid: None }),
{
    reveal_strlit("TYPE");
    reveal_strlit("LABEL");
    reveal_strlit("UUID");
    reveal_strlit("type");
    reveal_strlit("label");
    reveal_strlit("uuid");
    assert(fold("TYPE"@) =~= "type"@);
    assert(fold("LABEL"@) =~= "label"@);
    assert(fold("UUID"@) =~= "uuid"@);
    assert("uuid"@.len() == 4 && "type"@.len() == 4 && "label"@.len() == 5);
    assert("uuid"@[0] == 'u' && "type"@[0] == 't');
}

/// A column that comes later is read later.
pub proof fn columns_are_read_in_order(cols: Seq<(Seq<char>, Seq<char>)>, key: Seq<char>, value: Seq<char>)
    ensures
        row_of(cols.push((key, value))) == with_column(row_of(cols), key, value),
        tags_of(cols.push((key, value))) == with_tag(tags_of(cols), key, value),
{
    assert(cols.push((key, value)).drop_last() =~= cols);
}

/// The filesystem on a device is asked for without regard to what was found before, and
/// that there is none is no failure.
pub proof fn how_a_filesystem_is_asked_for<H: Host>(m: Disks<H>, device: Seq<char>)
    ensures
        ({
            let ask = Call::Subp {
                argv: seq!["blkid"@, "-c"@, "/dev/null"@, device],
                data: None,
                env: Seq::empty(),
                rcs: seq![0int, 2int],
            };
            let (m1, r) = filesystem::<H>(m, device);
            let out = said::<H>(m.world, ask)->Output_0;
            &&& m1.calls == m.calls.push(ask)
            &&& out is Err ==> r is Err
            &&& out is Ok && (out->Ok_0).0.len() == 0 ==> r == Ok::<FsInfo, Seq<char>>(
                FsInfo { label: None, fs_type: None, uuid: None },
            )
        }),
{
}

/// A device is of the kind that the first line of its listing says, in whatever case.
pub proof fn the_kind_of_a_device<H: Host>(m: Disks<H>, device: Seq<char>, wanted: Seq<char>)
    ensures
        ({
            let (m1, is) = is_kind::<H>(m, device, wanted);
            let (m2, list) = enumerate::<H>(m, device, true);
            &&& is ==> list is Ok && (list->Ok_0).len() > 0 && (list->Ok_0)[0].kind is Some && fold(
                (list->Ok_0)[0].kind->0,
            ) == wanted
            &&& list is Ok && (list->Ok_0).len() > 0 && (list->Ok_0)[0].kind is Some && fold((list->Ok_0)[0].kind->0)
                == wanted ==> is
        }),
{
}

/// A disk with partitions is in use, and so is one with a filesystem.
pub proof fn what_is_in_use<H: Host>(m: Disks<H>, device: Seq<char>)
    ensures
        ({
            let (m1, r) = in_use::<H>(m, device);
            let (m2, list) = enumerate::<H>(m, device, false);
            let (m3, info) = filesystem::<H>(m2, device);
            &&& list is Ok && (list->Ok_0).len() > 1 ==> m1 == m2 && r == Ok::<bool, Seq<char>>(true)
            &&& list is Ok && (list->Ok_0).len() <= 1 && info is Ok ==> m1 == m3 && r == Ok::<bool, Seq<char>>(
                (info->Ok_0).fs_type is Some && ((info->Ok_0).fs_type->0).len() > 0,
            )
        }),
{
}

/// A filesystem of the type and with the label that are asked for is found where it is,
/// and is not made again.
pub proof fn a_filesystem_is_found<H: Host>(row: Row, rest: Seq<Row>, device: Seq<char>, name: Seq<char>, want: Wanted, used: bool)
    requires
        row.name == Some(name),
        row.fstype is Some,
        want.fs_type == Val::Text(row.fstype->0),
        want.label_match ==> want.label == Val::Text(row.label->0) && row.label is Some,
        want.replace_fs == Val::Bool(false),
    ensures
        pick(seq![row] + rest, device, want, used) == (Some("/dev/"@ + name), true),
{
    assert((seq![row] + rest)[0] == row);
}

/// A partition without a filesystem is taken for one; a filesystem that is to be
/// replaced is.
pub proof fn a_free_partition_is_taken(row: Row, rest: Seq<Row>, device: Seq<char>, name: Seq<char>, want: Wanted, used: bool)
    requires
        row.name == Some(name),
        row.fstype is Some,
        (row.kind == Some("part"@) && (row.fstype->0).len() == 0 && want.fs_type is Text && (want.fs_type->Text_0).len()
            > 0) || (!want.label_match && want.replace_fs == Val::Text(row.fstype->0)),
    ensures
        pick(seq![row] + rest, device, want, used) == (Some("/dev/"@ + name), false),
{
    assert((seq![row] + rest)[0] == row);
    if row.kind == Some("part"@) && (row.fstype->0).len() == 0 && want.fs_type is Text && (want.fs_type->Text_0).len()
        > 0 {
        assert(row.fstype->0 != want.fs_type->Text_0);
    }
}

/// A whole disk is taken where nothing on it is in use: it has no filesystem, and all
/// else in its listing is neither a disk nor a partition.
pub proof fn a_free_disk_is_taken(list: Seq<Row>, device: Seq<char>, want: Wanted)
    requires
        want.replace_fs == Val::Bool(false),
        want.fs_type is Text,
        (want.fs_type->Text_0).len() > 0,
        forall|i: int|
            0 <= i < list.len() ==> (#[trigger] list[i]).kind == Some("disk"@) && list[i].fstype == Some(
                Seq::<char>::empty(),
            ),
    ensures
        pick(list, device, want, false) == (Some(device), false),
    decreases list.len(),
{
    reveal_strlit("disk");
    reveal_strlit("part");
    assert("disk"@[0] == 'd' && "part"@[0] == 'p');
    if list.len() > 0 {
        let row = list[0];
        assert(row.kind == Some("disk"@));
        assert(row.fstype->0 != want.fs_type->Text_0);
        assert forall|i: int| 0 <= i < list.skip(1).len() implies (#[trigger] list.skip(1)[i]).kind == Some("disk"@)
            && list.skip(1)[i].fstype == Some(Seq::<char>::empty()) by {
            assert(list.skip(1)[i] == list[i + 1]);
        }
        a_free_disk_is_taken(list.skip(1), device, want);
    }
}

/// A disk that is in use as a whole is not taken.
pub proof fn a_used_disk_is_not_taken(list: Seq<Row>, device: Seq<char>, want: Wanted, node: Option<Seq<char>>)
    requires
        pick(list, device, want, true) == (node, false),
    ensures
        node is None || exists|i: int| 0 <= i < list.len() && node == Some(node_of(#[trigger] list[i])),
    decreases list.len(),
{
    if list.len() > 0 {
        let row = list[0];
        if node == Some(node_of(row)) {
            assert(list[0] == row);
        } else {
            a_used_disk_is_not_taken(list.skip(1), device, want, node);
            if node is Some {
                let i = choose|i: int| 0 <= i < list.skip(1).len() && node == Some(node_of(#[trigger] list.skip(1)[i]));
                assert(list[i + 1] == list.skip(1)[i]);
            }
        }
    }
}

/// The words of a listing have a name and a value.
pub proof fn a_word_has_two_sides(tokens: Seq<Seq<char>>)
    ensures
        sides(tokens) is Ok ==> (sides(tokens)->Ok_0).len() == tokens.len() && forall|i: int|
            0 <= i < tokens.len() ==> tokens[i] == (#[trigger] (sides(tokens)->Ok_0)[i]).0 + "="@
                + (sides(tokens)->Ok_0)[i].1,
    decreases tokens.len(),
{
    if tokens.len() > 0 {
        reveal_strlit("=");
        let f = split(tokens[0], "="@);
        if f.len() == 2 {
            a_word_has_two_sides(tokens.skip(1));
            pieces_make_up_the_text(tokens[0], "="@);
            assert(f =~= seq![f[0], f[1]]);
            reveal_with_fuel(join, 3);
            assert(f.drop_last() =~= seq![f[0]]);
            assert(seq![f[0]].drop_last() =~= Seq::empty());
            assert(join(f, "="@) =~= f[0] + "="@ + f[1]);
            if sides(tokens) is Ok {
                let all = sides(tokens)->Ok_0;
                let rest = sides(tokens.skip(1))->Ok_0;
                assert(all =~= seq![(f[0], f[1])] + rest);
                assert forall|i: int| 0 <= i < tokens.len() implies tokens[i] == (#[trigger] all[i]).0 + "="@ + all[i].1 by {
                    if i > 0 {
                        assert(all[i] == rest[i - 1]);
                        assert(tokens[i] == tokens.skip(1)[i - 1]);
                    }
                }
            }
        }
    }
}

// ---------------------------------------------------------------------------
// The layout that a disk has

/// The types on a disk of the older kind: one for each line on the device that is
/// neither an extended nor an empty entry.
pub proof fn a_line_has_a_type(lines: Seq<Seq<char>>, line: Seq<char>, device: Seq<char>)
    ensures
        mbr_types(Seq::empty(), device) == Seq::<Option<Seq<char>>>::empty(),
        ({
            let fields = words(Class::Space, line);
            let more = mbr_types(lines.push(line), device);
            let counts = fields.len() > 0 && holds(fields[0], device) && fold(fields.last()) != "extended"@ && fold(
                fields.last(),
            ) != "empty"@;
            &&& counts ==> more == mbr_types(lines, device).push(last_number(fields))
            &&& !counts ==> more == mbr_types(lines, device)
        }),
{
    assert(lines.push(line).drop_last() =~= lines);
}

/// The type in a line is the last number that is not its first word.
pub proof fn the_last_number_is_the_type(fields: Seq<Seq<char>>)
    ensures
        last_number(fields) is Some ==> exists|i: int|
            0 < i < fields.len() && #[trigger] fields[i] == last_number(fields)->0 && is_digits(fields[i]) && forall|j: int|
                i < j < fields.len() ==> !is_digits(#[trigger] fields[j]),
        last_number(fields) is None ==> forall|j: int| 0 < j < fields.len() ==> !is_digits(#[trigger] fields[j]),
    decreases fields.len(),
{
    if fields.len() > 1 {
        if is_digits(fields.last()) {
            let i = fields.len() - 1;
            assert(fields[i] == fields.last());
        } else {
            let less = fields.drop_last();
            the_last_number_is_the_type(less);
            if last_number(fields) is Some {
                let i = choose|i: int|
                    0 < i < less.len() && #[trigger] less[i] == last_number(less)->0 && is_digits(less[i]) && forall|j: int|
                        i < j < less.len() ==> !is_digits(#[trigger] less[j]);
                assert(fields[i] == less[i]);
                assert forall|j: int| i < j < fields.len() implies !is_digits(#[trigger] fields[j]) by {
                    if j < less.len() {
                        assert(less[j] == fields[j]);
                    }
                }
            } else {
                assert forall|j: int| 0 < j < fields.len() implies !is_digits(#[trigger] fields[j]) by {
                    if j < less.len() {
                        assert(less[j] == fields[j]);
                    }
                }
            }
        }
    }
}

/// The type of each partition is the sixth word of its line.
pub proof fn the_sixth_word_is_the_type(lines: Seq<Seq<char>>)
    ensures
        sixth_fields(lines) is Ok ==> (sixth_fields(lines)->Ok_0).len() == lines.len() && forall|i: int|
            0 <= i < lines.len() ==> #[trigger] (sixth_fields(lines)->Ok_0)[i] == Some(words(Class::Space, lines[i])[5]),
        (forall|i: int| 0 <= i < lines.len() ==> words(Class::Space, #[trigger] lines[i]).len() > 5) ==> sixth_fields(
            lines,
        ) is Ok,
    decreases lines.len(),
{
    if lines.len() > 0 {
        the_sixth_word_is_the_type(lines.skip(1));
        let rest = sixth_fields(lines.skip(1));
        if sixth_fields(lines) is Ok {
            let all = sixth_fields(lines)->Ok_0;
            assert forall|i: int| 0 <= i < lines.len() implies #[trigger] all[i] == Some(
                words(Class::Space, lines[i])[5],
            ) by {
                if i > 0 {
                    assert(all[i] == (rest->Ok_0)[i - 1]);
                    assert(lines[i] == lines.skip(1)[i - 1]);
                }
            }
        }
        if forall|i: int| 0 <= i < lines.len() ==> words(Class::Space, #[trigger] lines[i]).len() > 5 {
            assert(words(Class::Space, lines[0]).len() > 5);
            assert forall|i: int| 0 <= i < lines.skip(1).len() implies words(Class::Space, #[trigger] lines.skip(1)[i]).len()
                > 5 by {
                assert(lines.skip(1)[i] == lines[i + 1]);
            }
        }
    }
}

/// Only the lines behind the heading count.
pub proof fn lines_behind_the_heading(before: Seq<Seq<char>>, heading: Seq<char>, rest: Seq<Seq<char>>)
    requires
        starts(trim_start(Class::Space, heading), "Number"@),
        forall|i: int| 0 <= i < before.len() ==> !starts(trim_start(Class::Space, #[trigger] before[i]), "Number"@),
    ensures
        behind_header(before.push(heading) + rest) == rest,
    decreases before.len(),
{
    let all = before.push(heading) + rest;
    if before.len() == 0 {
        assert(all[0] == heading);
        assert(all.skip(1) =~= rest);
    } else {
        assert(all[0] == before[0]);
        assert forall|i: int| 0 <= i < before.skip(1).len() implies !starts(
            trim_start(Class::Space, #[trigger] before.skip(1)[i]),
            "Number"@,
        ) by {
            assert(before.skip(1)[i] == before[i + 1]);
        }
        lines_behind_the_heading(before.skip(1), heading, rest);
        assert(all.skip(1) =~= before.skip(1).push(heading) + rest);
    }
}

/// The types in a report: one for each partition, in order.
pub proof fn the_types_in_a_report(parts: Seq<Val>)
    ensures
        partition_types(parts) is Ok ==> (partition_types(parts)->Ok_0).len() == parts.len() && forall|i: int|
            0 <= i < parts.len() ==> (#[trigger] parts[i]) is Object && get(parts[i]->Object_0, "type"@) is Some
                && (partition_types(parts)->Ok_0)[i] == Some(show(get(parts[i]->Object_0, "type"@)->0)),
    decreases parts.len(),
{
    if parts.len() > 0 {
        the_types_in_a_report(parts.skip(1));
        if partition_types(parts) is Ok {
            let all = partition_types(parts)->Ok_0;
            let rest = partition_types(parts.skip(1))->Ok_0;
            assert(parts[0] is Object);
            assert(all =~= seq![Some(show(get(parts[0]->Object_0, "type"@)->0))] + rest);
            assert forall|i: int| 0 <= i < parts.len() implies (#[trigger] parts[i]) is Object && get(
                parts[i]->Object_0,
                "type"@,
            ) is Some && all[i] == Some(show(get(parts[i]->Object_0, "type"@)->0)) by {
                if i > 0 {
                    assert(all[i] == rest[i - 1]);
                    assert(parts[i] == parts.skip(1)[i - 1]);
                }
            }
        }
    }
}

/// The partitions of a report are in its table.
pub proof fn the_table_of_a_report(
    report: Seq<(Seq<char>, Val)>,
    table: Seq<(Seq<char>, Val)>,
    parts: Seq<Val>,
)
    requires
        get(report, "partitiontable"@) == Some(Val::Object(table)),
        get(table, "partitions"@) == Some(Val::Array(parts)),
    ensures
        listed_types(Val::Object(report)) == partition_types(parts),
{
}

/// The types on a disk of the newer kind are asked for with `sgdisk` where that is
/// there, and else with `sfdisk`; on one of the older kind with `sfdisk`, once the
/// kernel has read the table.
pub proof fn how_types_are_asked_for<H: Host>(m: Disks<H>, device: Seq<char>, layout: Val)
    ensures
        ({
            let ask = Call::Which("sgdisk"@);
            let calls = gpt_layout::<H>(m, device).0.calls;
            let n = m.calls.len() as int;
            &&& calls.len() == n + 2
            &&& calls[n] == ask
            &&& said::<H>(m.world, ask)->MaybeText_0 is Some ==> calls[n + 1] == english_command(
                seq!["sgdisk"@, "-p"@, device],
            )
            &&& said::<H>(m.world, ask)->MaybeText_0 is None ==> calls[n + 1] == english_command(
                seq!["sfdisk"@, "-l"@, "-J"@, device],
            )
        }),
        reread::<H>(m, device).1 is Ok ==> mbr_layout::<H>(m, device, layout).0.calls == reread::<H>(
            m,
            device,
        ).0.calls.push(script_command(seq!["sfdisk"@, "-l"@, device], show(layout) + "\n"@)),
{
}

/// What is asked for at each place of a layout: a list has it second.
pub proof fn the_types_of_a_layout(items: Seq<Val>)
    ensures
        wanted_types(items) is Ok ==> (wanted_types(items)->Ok_0).len() == items.len() && forall|i: int|
            0 <= i < items.len() ==> #[trigger] (wanted_types(items)->Ok_0)[i] == match items[i] {
                Val::Array(pair) => Some(show(pair[1])),
                _ => None,
            },
    decreases items.len(),
{
    if items.len() > 0 {
        the_types_of_a_layout(items.skip(1));
        if wanted_types(items) is Ok {
            let all = wanted_types(items)->Ok_0;
            let rest = wanted_types(items.skip(1))->Ok_0;
            assert forall|i: int| 0 <= i < items.len() implies #[trigger] all[i] == match items[i] {
                Val::Array(pair) => Some(show(pair[1])),
                _ => None,
            } by {
                if i > 0 {
                    assert(all[i] == rest[i - 1]);
                    assert(items[i] == items.skip(1)[i - 1]);
                }
            }
        }
    }
}

/// A layout fits a disk where there are as many types as are asked for and each agrees
/// with the one at its place; one place that does not is enough for it not to fit.
pub proof fn each_type_must_agree(
    wanted: Seq<Option<Seq<char>>>,
    found: Seq<Option<Seq<char>>>,
    ids: Seq<(Seq<char>, Seq<char>)>,
)
    requires
        wanted.len() == found.len(),
    ensures
        all_agree(wanted, found, ids) == Ok::<bool, Seq<char>>(true) ==> forall|i: int|
            0 <= i < wanted.len() && #[trigger] wanted[i] is Some && found[i] is Some ==> types_agree(
                uppercase(wanted[i]->0),
                uppercase(found[i]->0),
                ids,
            ) == Ok::<bool, Seq<char>>(true),
        (forall|i: int| 0 <= i < wanted.len() ==> #[trigger] wanted[i] is None) ==> all_agree(wanted, found, ids) == Ok::<
            bool,
            Seq<char>,
        >(true),
    decreases wanted.len(),
{
    if wanted.len() > 0 {
        each_type_must_agree(wanted.skip(1), found.skip(1), ids);
        if all_agree(wanted, found, ids) == Ok::<bool, Seq<char>>(true) {
            assert forall|i: int| 0 <= i < wanted.len() && #[trigger] wanted[i] is Some && found[i] is Some implies types_agree(
                uppercase(wanted[i]->0),
                uppercase(found[i]->0),
                ids,
            ) == Ok::<bool, Seq<char>>(true) by {
                if i > 0 {
                    assert(wanted.skip(1)[i - 1] == wanted[i]);
                    assert(found.skip(1)[i - 1] == found[i]);
                }
            }
        }
        if forall|i: int| 0 <= i < wanted.len() ==> #[trigger] wanted[i] is None {
            assert(wanted[0] is None);
            assert forall|i: int| 0 <= i < wanted.skip(1).len() implies #[trigger] wanted.skip(1)[i] is None by {
                assert(wanted.skip(1)[i] == wanted[i + 1]);
            }
        }
    }
}

/// A disk with another number of partitions than a layout has does not fit; a layout
/// that is just switched on fits any disk with a partition.
pub proof fn when_a_layout_cannot_fit(items: Seq<Val>, found: Seq<Option<Seq<char>>>, ids: Seq<(Seq<char>, Seq<char>)>)
    ensures
        items.len() != found.len() ==> layout_fits(Val::Array(items), found, ids) == Ok::<bool, Seq<char>>(false),
        layout_fits(Val::Bool(true), found, ids) == Ok::<bool, Seq<char>>(found.len() > 0),
        layout_fits(Val::Bool(false), found, ids) == Ok::<bool, Seq<char>>(false),
{
}

/// Two codes agree where they are the same, a short one standing for a long one.
pub proof fn when_codes_agree(a: Seq<char>, b: Seq<char>, ids: Seq<(Seq<char>, Seq<char>)>)
    requires
        a.len() == 2,
        b.len() == 4,
    ensures
        types_agree(a, b, ids) == Ok::<bool, Seq<char>>(b == a + "00"@),
        types_agree(b, a, ids) == Ok::<bool, Seq<char>>(b == a + "00"@),
        types_agree(a, a, ids) == Ok::<bool, Seq<char>>(true),
        types_agree(b, b, ids) == Ok::<bool, Seq<char>>(true),
{
    reveal_strlit("00");
}

/// A code agrees with a long name where the table of names has that name for it.
pub proof fn when_a_code_agrees_with_a_name(code: Seq<char>, name: Seq<char>, ids: Seq<(Seq<char>, Seq<char>)>)
    requires
        code.len() == 4,
        name.len() == 36,
        lookup(ids, code) is Some,
    ensures
        types_agree(code, name, ids) == Ok::<bool, Seq<char>>(lookup(ids, code) == Some(name)),
        types_agree(name, code, ids) == Ok::<bool, Seq<char>>(lookup(ids, code) == Some(name)),
{
}

// ---------------------------------------------------------------------------
// Deciding

/// Whether a row is of something that is purged: all but whole disks and encrypted
/// volumes.
pub open spec fn is_purged(row: Row) -> bool {
    row.kind != Some("disk"@) && row.kind != Some("crypt"@)
}

/// Every filesystem in a listing is wiped but those on whole disks and encrypted ones.
pub proof fn filesystems_are_wiped<H: Host>(m: Disks<H>, list: Seq<Row>)
    requires
        wipe_rows::<H>(m, list).1 is Ok,
    ensures
        ({
            let calls = wipe_rows::<H>(m, list).0.calls;
            &&& calls.len() >= m.calls.len()
            &&& calls.take(m.calls.len() as int) == m.calls
            &&& forall|i: int|
                0 <= i < list.len() && is_purged(#[trigger] list[i]) ==> calls.contains(
                    plain_command(seq!["wipefs"@, "--all"@, node_of(list[i])]),
                )
            &&& (forall|i: int| 0 <= i < list.len() ==> !is_purged(#[trigger] list[i])) ==> calls == m.calls
        }),
    decreases list.len(),
{
    let calls = wipe_rows::<H>(m, list).0.calls;
    if list.len() == 0 {
        assert(calls.take(m.calls.len() as int) =~= m.calls);
    } else {
        let wipe = plain_command(seq!["wipefs"@, "--all"@, node_of(list[0])]);
        let m0 = informed::<H>(m, "Purging filesystem on "@ + node_of(list[0]));
        let m1 = if is_purged(list[0]) {
            asked(m0, wipe, next::<H>(m0.world, wipe))
        } else {
            m
        };
        filesystems_are_wiped::<H>(m1, list.skip(1));
        assert(calls == wipe_rows::<H>(m1, list.skip(1)).0.calls);
        assert(calls.take(m.calls.len() as int) =~= calls.take(m1.calls.len() as int).take(m.calls.len() as int));
        assert(m1.calls.take(m.calls.len() as int) =~= m.calls);
        assert forall|i: int| 0 <= i < list.len() && is_purged(#[trigger] list[i]) implies calls.contains(
            plain_command(seq!["wipefs"@, "--all"@, node_of(list[i])]),
        ) by {
            if i == 0 {
                let k = m1.calls.len() - 1;
                assert(m1.calls[k] == wipe);
                assert(calls[k] == calls.take(m1.calls.len() as int)[k]);
            } else {
                assert(list.skip(1)[i - 1] == list[i]);
            }
        }
        if forall|i: int| 0 <= i < list.len() ==> !is_purged(#[trigger] list[i]) {
            assert(!is_purged(list[0]));
            assert forall|i: int| 0 <= i < list.skip(1).len() implies !is_purged(#[trigger] list.skip(1)[i]) by {
                assert(list.skip(1)[i] == list[i + 1]);
            }
        }
    }
}

/// A disk that is purged loses its filesystems before its table, and then the kernel
/// reads it.
pub proof fn a_table_goes_last<H: Host>(m: Disks<H>, device: Seq<char>, list: Seq<Row>)
    requires
        enumerate::<H>(m, device, false).1 == Ok::<Seq<Row>, Seq<char>>(list),
        wipe_rows::<H>(enumerate::<H>(m, device, false).0, list).1 is Ok,
    ensures
        ({
            let wiped = wipe_rows::<H>(enumerate::<H>(m, device, false).0, list).0;
            let ends = Call::WipeEnds(device);
            let after = asked(wiped, ends, next::<H>(wiped.world, ends));
            let done = said::<H>(wiped.world, ends)->Done_0;
            &&& done is Ok ==> purge::<H>(m, device) == reread::<H>(after, device)
            &&& done is Err ==> purge::<H>(m, device) == (after, done)
        }),
{
}

/// Where it is said that a disk may be overwritten, it is not asked whether it is in use.
pub proof fn overwriting_asks_nothing<H: Host>(m: Disks<H>, device: Seq<char>, definition: Seq<(Seq<char>, Val)>)
    ensures
        get(definition, "overwrite"@) == Some(Val::Bool(true)) ==> checked_use::<H>(m, device, definition).1 == Ok::<
            bool,
            Seq<char>,
        >(false) && checked_use::<H>(m, device, definition).0.calls.len() == m.calls.len() + 1,
        get(definition, "overwrite"@) is None || get(definition, "overwrite"@) == Some(Val::Bool(false)) ==> {
            let m1 = logged::<H>(m, "Checking if device is safe to partition"@);
            let (m2, used) = in_use::<H>(m1, device);
            used == Ok::<bool, Seq<char>>(true) ==> checked_use::<H>(m, device, definition) == (m2, used)
        },
{
}

/// Where nothing is said of the kind of table, it is the older one; without a layout
/// nothing is done.
pub proof fn what_is_done_by_default<H: Host>(
    m: Disks<H>,
    device: Seq<char>,
    definition: Seq<(Seq<char>, Val)>,
    ids: Seq<(Seq<char>, Seq<char>)>,
)
    ensures
        get(definition, "table_type"@) is None && get(definition, "layout"@) == Some(Val::Bool(true)) ==> {
            let m1 = logged::<H>(m, "Checking if device layout matches"@);
            checked_layout::<H>(m, device, definition, ids) == has_layout::<H>(
                m1,
                "mbr"@,
                device,
                Val::Bool(true),
                ids,
            )
        },
        get(definition, "layout"@) is None || get(definition, "layout"@) == Some(Val::Bool(false)) ==> {
            let (m1, r) = partition_resolved::<H>(m, device, definition, ids);
            r is Ok && forall|i: int| m.calls.len() <= i < m1.calls.len() ==> #[trigger] m1.calls[i] is Report
        },
{
}

// ---------------------------------------------------------------------------
// Placing filesystems

/// A template without a percent sign is a command as it is.
pub proof fn a_plain_template(s: Seq<char>, mapping: Seq<(Seq<char>, Seq<char>)>, out: Seq<char>)
    requires
        !s.contains('%'),
    ensures
        filled_from(s, mapping, out) == Ok::<Seq<char>, Seq<char>>(out + s),
    decreases s.len(),
{
    if s.len() > 0 {
        assert(s.contains(s[0]));
        assert forall|c: char| s.skip(1).contains(c) implies s.contains(c) by {
            let i = choose|i: int| 0 <= i < s.skip(1).len() && s.skip(1)[i] == c;
            assert(s[i + 1] == c);
        }
        a_plain_template(s.skip(1), mapping, out.push(s[0]));
        assert(out.push(s[0]) + s.skip(1) =~= out + s);
    } else {
        assert(out + s =~= out);
    }
}

/// A place in a template is filled with what stands under its name; two percent signs
/// are one.
pub proof fn a_place_is_filled(
    name: Seq<char>,
    value: Seq<char>,
    rest: Seq<char>,
    mapping: Seq<(Seq<char>, Seq<char>)>,
    out: Seq<char>,
)
    requires
        !name.contains(')'),
        lookup(mapping, name) == Some(value),
    ensures
        filled_from("%("@ + name + ")s"@ + rest, mapping, out) == filled_from(rest, mapping, out + value),
        filled_from("%%"@ + rest, mapping, out) == filled_from(rest, mapping, out + "%"@),
{
    reveal_strlit("%(");
    reveal_strlit(")s");
    reveal_strlit("%%");
    reveal_strlit("%");
    let s = "%("@ + name + ")s"@ + rest;
    let tail = s.skip(2);
    assert(tail =~= name + ")s"@ + rest);
    first_in_class(tail, name.len() as int);
    assert(tail.take(name.len() as int) =~= name);
    assert(tail.skip(name.len() as int + 1).skip(1) =~= rest);
    let twice = "%%"@ + rest;
    assert(twice.skip(2) =~= rest);
    assert(out.push('%') =~= out + "%"@);
}

proof fn first_in_class(s: Seq<char>, i: int)
    requires
        0 <= i < s.len(),
        s[i] == ')',
        forall|j: int| 0 <= j < i ==> s[j] != ')',
    ensures
        first_of(Class::One(')'), s) == i,
    decreases s.len(),
{
    if i > 0 {
        assert(s[0] != ')');
        assert(s.skip(1)[i - 1] == ')');
        assert forall|j: int| 0 <= j < i - 1 implies s.skip(1)[j] != ')' by {
            assert(s.skip(1)[j] == s[j + 1]);
        }
        first_in_class(s.skip(1), i - 1);
    }
}

/// A command that is given is run by the shell once its places are filled with the
/// label, the filesystem and the device.
pub proof fn a_given_command_is_run<H: Host>(m: Disks<H>, device: Seq<char>, q: Request, template: Seq<char>, line: Seq<char>)
    requires
        q.cmd == Val::Text(template),
        filled_in(
            template,
            seq![("label"@, show(q.label)), ("filesystem"@, show(q.fs_type)), ("device"@, device)],
        ) == Ok::<Seq<char>, Seq<char>>(line),
    ensures
        make_with_command::<H>(m, device, q).0.calls.last() == Call::Shell(line),
        forall|i: int|
            m.calls.len() <= i < make_with_command::<H>(m, device, q).0.calls.len() - 1
                ==> #[trigger] make_with_command::<H>(m, device, q).0.calls[i] is Report,
{
}

/// The device as it is takes the filesystem where no partition is to be used.
pub proof fn the_raw_device_is_used<H: Host>(m: Disks<H>, device: Seq<char>, q: Request, shown: Seq<char>)
    requires
        q.partition == "none"@,
    ensures
        target::<H>(m, device, q, shown).1 == Ok::<Option<Seq<char>>, Seq<char>>(Some(device)),
        target::<H>(m, device, q, shown).0.calls.len() == m.calls.len() + 1,
{
    reveal_strlit("none");
    reveal_strlit("auto");
    reveal_strlit("any");
    assert("none"@.len() == 4 && "auto"@.len() == 4 && "any"@.len() == 3);
    assert("none"@[0] == 'n' && "auto"@[0] == 'a');
    assert(fold("none"@) =~= "none"@);
    assert(!within(Class::Digit, "none"@[0]));
}

/// Where the choice is left open a device is looked for: with `any` a filesystem of the
/// type will do, with `auto` it must have the label too.
pub proof fn a_device_is_looked_for<H: Host>(m: Disks<H>, device: Seq<char>, q: Request, shown: Seq<char>)
    requires
        q.partition == "auto"@ || q.partition == "any"@,
    ensures
        ({
            let m1 = logged::<H>(m, "Identifying device to create "@ + show(q.label) + " filesystem on"@);
            let want = Wanted {
                fs_type: q.fs_type,
                label: q.label,
                label_match: q.partition == "auto"@,
                replace_fs: q.replace,
            };
            let (m2, found) = find_node::<H>(m1, device, want);
            let (m3, r) = target::<H>(m, device, q, shown);
            &&& found is Ok && (found->Ok_0).1 ==> r == Ok::<Option<Seq<char>>, Seq<char>>(None)
            &&& found is Ok && !(found->Ok_0).1 ==> r == Ok::<Option<Seq<char>>, Seq<char>>((found->Ok_0).0)
            &&& found is Err ==> r is Err
        }),
{
    reveal_strlit("auto");
    reveal_strlit("any");
    assert("auto"@.len() == 4 && "any"@.len() == 3);
    assert("auto"@[0] == 'a' && "any"@[0] == 'a');
    assert(fold("auto"@) =~= "auto"@);
    assert(fold("any"@) =~= "any"@);
    assert(!within(Class::Digit, q.partition[0]));
}

/// What a definition of a filesystem says, and what holds where it says nothing.
pub proof fn what_a_definition_says(cfg: Seq<(Seq<char>, Val)>)
    ensures
        get(cfg, "partition"@) is None ==> request_of(cfg).partition == "any"@,
        get(cfg, "partition"@) is Some && get(cfg, "partition"@)->0 is Text ==> request_of(cfg).partition == get(
            cfg,
            "partition"@,
        )->0->Text_0,
        get(cfg, "filesystem"@) is Some ==> request_of(cfg).fs_type == get(cfg, "filesystem"@)->0,
        get(cfg, "label"@) is Some ==> request_of(cfg).label == get(cfg, "label"@)->0,
        get(cfg, "cmd"@) is Some ==> request_of(cfg).cmd == get(cfg, "cmd"@)->0,
        get(cfg, "extra_opts"@) is Some ==> request_of(cfg).opts == get(cfg, "extra_opts"@)->0,
        get(cfg, "replace_fs"@) is Some ==> request_of(cfg).replace == get(cfg, "replace_fs"@)->0,
        get(cfg, "replace_fs"@) is None ==> request_of(cfg).replace == Val::Bool(false),
        get(cfg, "overwrite"@) is None ==> !request_of(cfg).overwrite,
        get(cfg, "overwrite"@) == Some(Val::Bool(true)) ==> request_of(cfg).overwrite,
{
}

// ---------------------------------------------------------------------------
// The configuration

/// A disk that has another name is set up under that; its own name is kept in its
/// definition, and no other disk is touched.
pub proof fn a_disk_is_moved_to_its_name(
    disks: Seq<(Seq<char>, Val)>,
    name: Seq<char>,
    to: Seq<char>,
    definition: Seq<(Seq<char>, Val)>,
    other: Seq<char>,
)
    requires
        name != to,
        get(disks, name) == Some(Val::Object(definition)),
        get(disks, to) is None,
    ensures
        get(moved(disks, name, to), to) == Some(Val::Object(put(definition, "_origname"@, Val::Text(name)))),
        other != name && other != to ==> get(moved(disks, name, to), other) == get(disks, other),
{
    let cleared = shift_removed(disks, to);
    index_of_is_first(disks, to);
    assert(cleared == disks);
    let v = Val::Object(put(definition, "_origname"@, Val::Text(name)));
    get_after_put(cleared, to, v, to);
    get_after_put(cleared, to, v, other);
    let more = put(cleared, to, v);
    shift_keeps_others(more, name, to);
    shift_keeps_others(more, name, other);
}

/// The device of a filesystem is named by its alias, and what stands behind a dot is
/// its partition.
pub proof fn a_dotted_device_names_its_partition(
    m: Seq<(Seq<char>, Val)>,
    names: Seq<(Seq<char>, Val)>,
    device: Seq<char>,
    part: Seq<char>,
    to: Seq<char>,
)
    requires
        !part.contains('.'),
        part.len() > 0,
        get(m, "device"@) == Some(Val::Text(device + seq!['.'] + part)),
        get(names, device) == Some(Val::Text(to)),
    ensures
        ({
            let r = fs_resolved(Val::Object(m), Val::Object(names));
            &&& r is Ok && r->Ok_0 is Object
            &&& get(r->Ok_0->Object_0, "device"@) == Some(Val::Text(to))
            &&& get(r->Ok_0->Object_0, "partition"@) == Some(Val::Text(part))
            &&& get(r->Ok_0->Object_0, "filesystem"@) == get(m, "filesystem"@)
            &&& get(r->Ok_0->Object_0, "label"@) == get(m, "label"@)
        }),
{
    reveal_strlit("device");
    reveal_strlit("partition");
    reveal_strlit("_partition");
    reveal_strlit("_origname");
    reveal_strlit("filesystem");
    reveal_strlit("label");
    assert("device"@.len() == 6 && "partition"@.len() == 9 && "_partition"@.len() == 10 && "_origname"@.len() == 9
        && "filesystem"@.len() == 10 && "label"@.len() == 5);
    assert("partition"@[0] == 'p' && "_origname"@[0] == '_' && "_partition"@[0] == '_' && "filesystem"@[0] == 'f');
    let name = device + seq!['.'] + part;
    last_found(device, '.', part);
    let a = put(m, "_origname"@, Val::Text(name));
    let b = put(a, "device"@, Val::Text(to));
    let c = match get(b, "partition"@) {
        Some(existing) => put(b, "_partition"@, existing),
        None => b,
    };
    kept_by_put(m, "_origname"@, Val::Text(name));
    kept_by_put(a, "device"@, Val::Text(to));
    if get(b, "partition"@) is Some {
        kept_by_put(b, "_partition"@, get(b, "partition"@)->0);
    }
    kept_by_put(c, "partition"@, Val::Text(part));
}

proof fn kept_by_put(m: Seq<(Seq<char>, Val)>, key: Seq<char>, v: Val)
    ensures
        get(put(m, key, v), key) == Some(v),
        forall|other: Seq<char>| other != key ==> #[trigger] get(put(m, key, v), other) == get(m, other),
{
    get_after_put(m, key, v, key);
    assert forall|other: Seq<char>| other != key implies #[trigger] get(put(m, key, v), other) == get(m, other) by {
        get_after_put(m, key, v, other);
    }
}

/// One disk after the other is partitioned, and one filesystem after the other made.
pub proof fn one_after_the_other<H: Host>(
    m: Disks<H>,
    disks: Seq<(Seq<char>, Val)>,
    name: Seq<char>,
    definition: Seq<(Seq<char>, Val)>,
    ids: Seq<(Seq<char>, Seq<char>)>,
    filesystems: Seq<Val>,
)
    ensures
        ({
            let m1 = partition_all::<H>(m, disks, ids);
            let (m2, r) = partition::<H>(m1, name, definition, ids);
            r is Ok ==> partition_all::<H>(m, disks.push((name, Val::Object(definition))), ids) == m2
        }),
        ({
            let m1 = make_all_fs::<H>(m, filesystems);
            let (m2, r) = make_fs::<H>(m1, definition);
            r is Ok ==> make_all_fs::<H>(m, filesystems.push(Val::Object(definition))) == m2
        }),
    decreases disks.len() + filesystems.len(),
{
    reveal_with_fuel(partition_all, 2);
    reveal_with_fuel(make_all_fs, 2);
    let more = disks.push((name, Val::Object(definition)));
    if disks.len() > 0 {
        let m1 = disk_set_up::<H>(m, disks[0].0, disks[0].1, ids);
        one_after_the_other::<H>(m1, disks.skip(1), name, definition, ids, Seq::empty());
        assert(more.skip(1) =~= disks.skip(1).push((name, Val::Object(definition))));
    } else {
        assert(more.skip(1) =~= Seq::empty());
    }
    let many = filesystems.push(Val::Object(definition));
    if filesystems.len() > 0 {
        let m1 = filesystem_set_up::<H>(m, filesystems[0]);
        one_after_the_other::<H>(m1, Seq::empty(), name, definition, ids, filesystems.skip(1));
        assert(many.skip(1) =~= filesystems.skip(1).push(Val::Object(definition)));
    } else {
        assert(many.skip(1) =~= Seq::empty());
    }
}

/// Disks come before filesystems.
pub proof fn disks_before_filesystems<H: Host>(m: Disks<H>, cfg: Seq<(Seq<char>, Val)>, ids: Seq<(Seq<char>, Seq<char>)>)
    ensures
        set_up_disks::<H>(m, cfg, ids).1 is Ok ==> set_up::<H>(m, cfg, ids) == set_up_filesystems::<H>(
            set_up_disks::<H>(m, cfg, ids).0,
            cfg,
        ),
        get(cfg, "disk_setup"@) is None && get(cfg, "fs_setup"@) is None ==> set_up::<H>(m, cfg, ids) == (
            m,
            Ok::<(), Seq<char>>(()),
        ),
{
}

/// A disk is occupied where it is in use or holds a filesystem.
pub proof fn what_is_occupied<H: Host>(m: Disks<H>, device: Seq<char>)
    ensures
        ({
            let (m1, used) = in_use::<H>(m, device);
            let (m2, info) = filesystem::<H>(m1, device);
            let r = occupied::<H>(m, device);
            &&& used == Ok::<bool, Seq<char>>(true) ==> r == (m1, used)
            &&& used == Ok::<bool, Seq<char>>(false) && info is Ok && (info->Ok_0).fs_type is None ==> r == (
                m2,
                Ok::<bool, Seq<char>>(false),
            )
            &&& used == Ok::<bool, Seq<char>>(false) && info is Ok && (info->Ok_0).fs_type is Some && ((
            info->Ok_0).fs_type->0).len() > 0 ==> r == (m2, Ok::<bool, Seq<char>>(true))
            &&& used is Err ==> r.1 is Err
        }),
{
}

/// A column is what is asked for where it is the same text; nothing is asked for where it
/// must not be there.
pub proof fn when_a_column_is_right(text: Seq<char>, other: Seq<char>)
    ensures
        column_is(Some(text), Val::Text(text)),
        text != other ==> !column_is(Some(text), Val::Text(other)),
        column_is(None, Val::Null),
        !column_is(Some(text), Val::Null),
        !column_is(None, Val::Text(text)),
        !column_is(Some(text), Val::Bool(true)),
{
}

/// Each line of a listing that is not blank is a row.
pub proof fn a_line_is_a_row(line: Seq<char>, rest: Seq<Seq<char>>)
    ensures
        ({
            let all = rows_of(seq![line] + rest);
            let more = rows_of(rest);
            let cols = columns(line, 0);
            &&& words(Class::Space, line).len() == 0 ==> all == more
            &&& words(Class::Space, line).len() > 0 && cols is Ok && more is Ok ==> all is Ok && all->Ok_0 == seq![
                row_of(cols->Ok_0),
            ] + more->Ok_0
            &&& words(Class::Space, line).len() > 0 && cols is Err ==> all is Err
        }),
        rows_of(Seq::empty()) == Ok::<Seq<Row>, Seq<char>>(Seq::empty()),
{
    let s = seq![line] + rest;
    assert(s[0] == line);
    assert(s.skip(1) =~= rest);
}

/// A percentage is what is written, without the space around it.
pub proof fn a_percentage_is_what_is_written(n: int, text: Seq<char>)
    ensures
        percent_text(Val::Int(n)) == Ok::<Seq<char>, Seq<char>>(dec_int(n)),
        percent_text(Val::Text(text)) == Ok::<Seq<char>, Seq<char>>(
            trim(Class::Space, text),
        ),
        percent_text(Val::Null) is Err,
{
}

/// The flag that overwrites, by the kind of filesystem.
pub proof fn the_flag_that_overwrites(more: Seq<char>)
    ensures
        force_flag("ext4"@) == "-F"@,
        force_flag("btrfs"@) == "-f"@,
        force_flag("xfs"@) == "-f"@,
        force_flag("reiserfs"@) == "-f"@,
        force_flag("swap"@) == "-f"@,
        force_flag("vfat"@) == Seq::<char>::empty(),
{
    reveal_strlit("ext4");
    reveal_strlit("ext");
    reveal_strlit("btrfs");
    reveal_strlit("xfs");
    reveal_strlit("reiserfs");
    reveal_strlit("swap");
    reveal_strlit("vfat");
    let ext = "ext"@;
    assert(fold("ext4"@) =~= "ext4"@);
    assert("ext4"@.subrange(0, 3) =~= ext);
    assert(stands_at("ext4"@, ext, 0));
    has_is_somewhere("ext4"@, ext);
    assert(fold("btrfs"@) =~= "btrfs"@);
    assert(fold("xfs"@) =~= "xfs"@);
    assert(fold("reiserfs"@) =~= "reiserfs"@);
    assert(fold("swap"@) =~= "swap"@);
    assert(fold("vfat"@) =~= "vfat"@);
    not_ext("btrfs"@);
    not_ext("xfs"@);
    not_ext("reiserfs"@);
    not_ext("swap"@);
    not_ext("vfat"@);
    assert("vfat"@.len() == 4 && "btrfs"@.len() == 5 && "xfs"@.len() == 3 && "reiserfs"@.len() == 8 && "swap"@.len() == 4);
    assert("vfat"@[0] == 'v' && "swap"@[0] == 's');
}

proof fn not_ext(s: Seq<char>)
    requires
        forall|i: int| 0 <= i < s.len() - 1 ==> #[trigger] s[i] != 'e' || s[i + 1] != 'x',
    ensures
        !holds(s, "ext"@),
{
    reveal_strlit("ext");
    has_is_somewhere(s, "ext"@);
    if holds(s, "ext"@) {
        let i = choose|i: int| stands_at(s, "ext"@, i);
        assert(s.subrange(i, i + 3)[0] == 'e');
        assert(s.subrange(i, i + 3)[1] == 'x');
        assert(s[i] == 'e' && s[i + 1] == 'x');
    }
}

} // verus!
