//! Partitioning a disk.

use vstd::prelude::*;

use crate::cc::disk_setup::host::{informed, log_debug, log_info, log_warn, logged, warned, Call, Host};
use crate::cc::disk_setup::layout::{
    check_partition_layout, get_partition_gpt_layout, get_partition_mbr_layout, gpt_plan, guid_of, has_layout,
    mbr_script, parts, Part, PartSpec,
};
use crate::cc::disk_setup::probe::{
    check_fs, enumerate, enumerate_disk, exists_at, filesystem, filled, in_use, is_device_valid, is_disk,
    is_disk_used, node_of, rows, run, run_full, run_input_of, run_of, truthy_opt, which, Disks, Row,
};
use crate::cc::disk_setup::table::{disk_size, get_hdd_size, read_parttbl, reread, settle, udevadm_settle, unit_result};
use crate::cc::growpart::error_text;
use crate::machine::{asked, lookup_text, text_table};
use crate::number::{dec, dec_of};
use crate::show::{py_str, py_truthy, quoted, repr, repr_of, repr_str, show, truthy};
use crate::space::{fold, fold_of};
use crate::text::{argv3, argv4, argv5, cat2, cat3, cat4, cat5, cat7, join, join_with, same, texts, texts_push};
use crate::value::{get, Node, Object, Val};

verus! {

/// Zeroes the ends of a device.
pub open spec fn wipe<H: Host>(m: Disks<H>, device: Seq<char>) -> (Disks<H>, Result<(), Seq<char>>) {
    let (w, a) = H::reply(m.world, Call::WipeEnds(device));
    (asked(m, Call::WipeEnds(device), w), a->Done_0)
}

/// Wipes the filesystems among the rows, all but whole disks and encrypted ones.
pub open spec fn wipe_rows<H: Host>(m: Disks<H>, list: Seq<Row>) -> (Disks<H>, Result<(), Seq<char>>)
    decreases list.len(),
{
    if list.len() == 0 {
        (m, Ok(()))
    } else if list[0].kind == Some("disk"@) || list[0].kind == Some("crypt"@) {
        wipe_rows::<H>(m, list.skip(1))
    } else {
        let (m1, out) = run::<H>(
            informed::<H>(m, "Purging filesystem on "@ + node_of(list[0])),
            seq!["wipefs"@, "--all"@, node_of(list[0])],
        );
        match out {
            Ok(_) => wipe_rows::<H>(m1, list.skip(1)),
            Err(_) => (m1, Err("Failed FS purge of "@ + node_of(list[0]))),
        }
    }
}

/// Removes what is on a disk: the filesystems, then the partition table.
pub open spec fn purge<H: Host>(m: Disks<H>, device: Seq<char>) -> (Disks<H>, Result<(), Seq<char>>) {
    let (m1, listed) = enumerate::<H>(m, device, false);
    match listed {
        Err(e) => (m1, Err(e)),
        Ok(list) => {
            let (m2, wiped) = wipe_rows::<H>(m1, list);
            match wiped {
                Err(e) => (m2, Err(e)),
                Ok(()) => {
                    let (m3, ends) = wipe::<H>(m2, device);
                    match ends {
                        Err(e) => (m3, Err(e)),
                        Ok(()) => reread::<H>(m3, device),
                    }
                },
            }
        },
    }
}

fn purge_disk_ptable<H: Host>(host: &mut H, device: &str) -> (r: Result<(), String>)
    ensures
        ({
            let (m1, ends) = wipe::<H>(old(host).machine(), device@);
            (final(host).machine(), unit_result(r)) == match ends {
                Err(e) => (m1, Err(e)),
                Ok(()) => reread::<H>(m1, device@),
            }
        }),
{
    match host.wipe_ends(device) {
        Ok(()) => read_parttbl(host, device),
        Err(e) => Err(e),
    }
}

pub fn purge_disk<H: Host>(host: &mut H, device: &str) -> (r: Result<(), String>)
    ensures
        (final(host).machine(), unit_result(r)) == purge::<H>(old(host).machine(), device@),
{
    let entries = match enumerate_disk(host, device, false) {
        Ok(entries) => entries,
        Err(e) => return Err(e),
    };
    let ghost list = rows(entries@);
    let ghost m1 = host.machine();
    let mut i: usize = 0;
    assert(list.skip(0) =~= list);
    while i < entries.len()
        invariant
            i <= entries@.len(),
            list == rows(entries@),
            enumerate::<H>(old(host).machine(), device@, false) == (m1, Ok::<Seq<Row>, Seq<char>>(list)),
            wipe_rows::<H>(host.machine(), list.skip(i as int)) == wipe_rows::<H>(m1, list),
        decreases entries.len() - i,
    {
        let entry = &entries[i];
        assert(list.skip(i as int)[0] == entry@);
        assert(list.skip(i as int).skip(1) =~= list.skip(i + 1));
        let kept = match &entry.kind {
            Some(kind) => same(kind.as_str(), "disk") || same(kind.as_str(), "crypt"),
            None => false,
        };
        if !kept {
            let name = match &entry.name {
                Some(name) => name.clone(),
                None => String::new(),
            };
            let node = cat2("/dev/", name.as_str());
            assert(node@ =~= node_of(entry@));
            log_info(host, cat2("Purging filesystem on ", node.as_str()).as_str());
            match run_of(host, &argv3("wipefs", "--all", node.as_str())) {
                Ok(_) => {},
                Err(_) => return Err(cat2("Failed FS purge of ", node.as_str())),
            }
        }
        i += 1;
    }
    purge_disk_ptable(host, device)
}

// ---------------------------------------------------------------------------
// Writing a table

/// Runs a command whose failure is reported.
pub open spec fn must_run<H: Host>(m: Disks<H>, argv: Seq<Seq<char>>) -> (Disks<H>, Result<(), Seq<char>>) {
    let (m1, out) = run::<H>(m, argv);
    (
        m1,
        match out {
            Ok(_) => Ok(()),
            Err(e) => Err(error_text(e)),
        },
    )
}

fn must_run_of<H: Host>(host: &mut H, argv: &Vec<String>) -> (r: Result<(), String>)
    ensures
        (final(host).machine(), unit_result(r)) == must_run::<H>(old(host).machine(), texts(argv@)),
{
    match run_of(host, argv) {
        Ok(_) => Ok(()),
        Err(e) => Err(e.to_text()),
    }
}

/// Writes an MBR table from an `sfdisk` script.
pub open spec fn write_mbr<H: Host>(m: Disks<H>, device: Seq<char>, script: Seq<char>) -> (Disks<H>, Result<(), Seq<char>>) {
    let (m1, out) = run_full::<H>(
        m,
        seq!["sfdisk"@, "--force"@, device],
        Some(script + "\n"@),
        Seq::empty(),
        seq![0int],
    );
    match out {
        Ok(_) => reread::<H>(m1, device),
        Err(e) => (m1, Err("Failed to partition device "@ + device + "\n"@ + error_text(e))),
    }
}

pub fn exec_mkpart_mbr<H: Host>(host: &mut H, device: &str, layout: &str) -> (r: Result<(), String>)
    ensures
        (final(host).machine(), unit_result(r)) == write_mbr::<H>(old(host).machine(), device@, layout@),
{
    let data = cat2(layout, "\n");
    let env: Vec<(String, String)> = Vec::new();
    assert(text_table(env@) =~= Seq::empty());
    match run_input_of(host, &argv3("sfdisk", "--force", device), Some(data.as_str()), &env) {
        Ok(_) => read_parttbl(host, device),
        Err(e) => Err(cat4("Failed to partition device ", device, "\n", e.to_text().as_str())),
    }
}

/// `s` followed by as many `fill` as bring it to a width.
pub open spec fn left_justified(s: Seq<char>, width: nat, fill: char) -> Seq<char>
    decreases width - s.len(),
{
    if s.len() >= width {
        s
    } else {
        left_justified(s.push(fill), width, fill)
    }
}

pub fn ljust(text: &str, width: usize, fill: char) -> (r: String)
    ensures
        r@ == left_justified(text@, width as nat, fill),
{
    let mut out = text.to_owned();
    let mut len: usize = text.unicode_len();
    while len < width
        invariant
            len == out@.len(),
            left_justified(out@, width as nat, fill) == left_justified(text@, width as nat, fill),
        decreases width - len,
    {
        out.push(fill);
        len += 1;
    }
    out
}

/// The partition type as a tool takes it: a code of four characters.
pub open spec fn code_of(kind: Val) -> Seq<char> {
    left_justified(show(kind), 4, '0')
}

/// Makes partitions one by one with `sgdisk`, the first with number `n`.
pub open spec fn sgdisk_parts<H: Host>(m: Disks<H>, device: Seq<char>, list: Seq<PartSpec>, n: nat) -> (
    Disks<H>,
    Result<(), Seq<char>>,
)
    decreases list.len(),
{
    if list.len() == 0 {
        (m, Ok(()))
    } else {
        let part = list[0];
        let (m1, made) = must_run::<H>(
            m,
            seq!["sgdisk"@, "-n"@, dec(n) + ":"@ + part.start + ":"@ + part.end, device],
        );
        match made {
            Err(e) => (m1, Err(e)),
            Ok(()) => if part.kind is Null {
                sgdisk_parts::<H>(m1, device, list.skip(1), n + 1)
            } else {
                let (m2, typed) = must_run::<H>(
                    m1,
                    seq!["sgdisk"@, "-t"@, dec(n) + ":"@ + code_of(part.kind), device],
                );
                match typed {
                    Err(e) => (m2, Err(e)),
                    Ok(()) => sgdisk_parts::<H>(m2, device, list.skip(1), n + 1),
                }
            },
        }
    }
}

/// Clears a disk with `sgdisk` and makes partitions on it.
pub open spec fn sgdisk_tried<H: Host>(m: Disks<H>, device: Seq<char>, list: Seq<PartSpec>) -> (
    Disks<H>,
    Result<(), Seq<char>>,
) {
    let (m1, cleared) = must_run::<H>(m, seq!["sgdisk"@, "-Z"@, device]);
    match cleared {
        Err(e) => (m1, Err(e)),
        Ok(()) => sgdisk_parts::<H>(m1, device, list, 1),
    }
}

/// The same, with a warning where it fails.
pub open spec fn write_sgdisk<H: Host>(m: Disks<H>, device: Seq<char>, list: Seq<PartSpec>) -> (
    Disks<H>,
    Result<(), Seq<char>>,
) {
    let (m1, done) = sgdisk_tried::<H>(m, device, list);
    match done {
        Ok(()) => (m1, Ok(())),
        Err(e) => (warned::<H>(m1, "Failed to partition device "@ + device), Err(e)),
    }
}

pub fn exec_mkpart_gpt_sgdisk<H: Host>(host: &mut H, device: &str, layout: &Vec<Part>) -> (r: Result<(), String>)
    ensures
        (final(host).machine(), unit_result(r)) == write_sgdisk::<H>(
            old(host).machine(),
            device@,
            parts(layout@),
        ),
{
    match try_sgdisk(host, device, layout) {
        Ok(()) => Ok(()),
        Err(e) => {
            log_warn(host, cat2("Failed to partition device ", device).as_str());
            Err(e)
        },
    }
}

fn try_sgdisk<H: Host>(host: &mut H, device: &str, layout: &Vec<Part>) -> (r: Result<(), String>)
    ensures
        (final(host).machine(), unit_result(r)) == sgdisk_tried::<H>(
            old(host).machine(),
            device@,
            parts(layout@),
        ),
{
    match must_run_of(host, &argv3("sgdisk", "-Z", device)) {
        Ok(()) => {},
        Err(e) => return Err(e),
    }
    let ghost list = parts(layout@);
    let ghost m1 = host.machine();
    let mut i: usize = 0;
    assert(list.skip(0) =~= list);
    while i < layout.len()
        invariant
            i <= layout@.len(),
            list == parts(layout@),
            sgdisk_tried::<H>(old(host).machine(), device@, list) == sgdisk_parts::<H>(m1, device@, list, 1),
            sgdisk_parts::<H>(host.machine(), device@, list.skip(i as int), (i + 1) as nat) == sgdisk_parts::<H>(
                m1,
                device@,
                list,
                1,
            ),
        decreases layout.len() - i,
    {
        let part = &layout[i];
        assert(list.skip(i as int)[0] == part@);
        assert(list.skip(i as int).skip(1) =~= list.skip(i + 1));
        let number = dec_of((i as u128) + 1);
        let range = cat5(number.as_str(), ":", part.start.as_str(), ":", part.end.as_str());
        match must_run_of(host, &argv4("sgdisk", "-n", range.as_str(), device)) {
            Ok(()) => {},
            Err(e) => return Err(e),
        }
        if !part.kind.is_null() {
            let code = ljust(py_str(&part.kind).as_str(), 4, '0');
            let typed = cat3(number.as_str(), ":", code.as_str());
            match must_run_of(host, &argv4("sgdisk", "-t", typed.as_str(), device)) {
                Ok(()) => {},
                Err(e) => return Err(e),
            }
        }
        i += 1;
    }
    Ok(())
}

/// The GUID of a Linux filesystem.
pub open spec fn linux_guid() -> Seq<char> {
    "0FC63DAF-8483-4772-8E79-3D69D8477DE4"@
}

/// The GUID of a partition type where there is one, and else its code.
pub open spec fn sfdisk_name(ids: Seq<(Seq<char>, Seq<char>)>, kind: Val) -> Seq<char> {
    let code = code_of(kind);
    match guid_of(ids, code) {
        Some(g) => g,
        None => code,
    }
}

/// The GUID of a partition type; a type without one is a Linux filesystem.
pub open spec fn sfdisk_type(ids: Seq<(Seq<char>, Seq<char>)>, kind: Val) -> Seq<char> {
    if sfdisk_name(ids, kind).len() == 36 {
        sfdisk_name(ids, kind)
    } else {
        linux_guid()
    }
}

/// Warns of each type without a GUID, but for the want of a type.
pub open spec fn unknown_told<H: Host>(m: Disks<H>, ids: Seq<(Seq<char>, Seq<char>)>, list: Seq<PartSpec>) -> Disks<H>
    decreases list.len(),
{
    if list.len() == 0 {
        m
    } else {
        let before = unknown_told::<H>(m, ids, list.drop_last());
        let name = sfdisk_name(ids, list.last().kind);
        if name.len() != 36 && name != "None"@ {
            warned::<H>(before, "Unknown GPT partition type "@ + name + ", using Linux"@)
        } else {
            before
        }
    }
}

/// The `sfdisk` script for partitions.
pub open spec fn sfdisk_script(ids: Seq<(Seq<char>, Seq<char>)>, list: Seq<PartSpec>) -> Seq<char>
    decreases list.len(),
{
    if list.len() == 0 {
        Seq::empty()
    } else {
        let part = list.last();
        let before = sfdisk_script(ids, list.drop_last());
        if part.end == "0"@ {
            before + (",,"@ + sfdisk_type(ids, part.kind) + "\n"@)
        } else {
            before + (","@ + part.end + ","@ + sfdisk_type(ids, part.kind) + "\n"@)
        }
    }
}

fn sfdisk_type_of<H: Host>(ids: &Vec<(String, String)>, kind: &Node, host: &mut H) -> (r: String)
    ensures
        r@ == sfdisk_type(text_table(ids@), kind@),
        final(host).machine() == ({
            let name = sfdisk_name(text_table(ids@), kind@);
            if name.len() != 36 && name != "None"@ {
                warned::<H>(old(host).machine(), "Unknown GPT partition type "@ + name + ", using Linux"@)
            } else {
                old(host).machine()
            }
        }),
{
    let code = ljust(py_str(kind).as_str(), 4, '0');
    let guid = if code.as_str().unicode_len() == 4 {
        match lookup_text(ids, code.as_str()) {
            Some(g) => g,
            None => code,
        }
    } else {
        code
    };
    if guid.as_str().unicode_len() == 36 {
        guid
    } else {
        if !same(guid.as_str(), "None") {
            log_warn(host, cat3("Unknown GPT partition type ", guid.as_str(), ", using Linux").as_str());
        }
        "0FC63DAF-8483-4772-8E79-3D69D8477DE4".to_owned()
    }
}

/// Makes partitions with `sfdisk`.
pub open spec fn write_sfdisk<H: Host>(
    m: Disks<H>,
    device: Seq<char>,
    list: Seq<PartSpec>,
    ids: Seq<(Seq<char>, Seq<char>)>,
) -> (Disks<H>, Result<(), Seq<char>>) {
    let (m1, out) = run_full::<H>(
        unknown_told::<H>(m, ids, list),
        seq!["sfdisk"@, "-X"@, "gpt"@, "--force"@, device],
        Some(sfdisk_script(ids, list)),
        Seq::empty(),
        seq![0int],
    );
    match out {
        Ok(_) => (m1, Ok(())),
        Err(e) => (warned::<H>(m1, "Failed to partition device "@ + device), Err(error_text(e))),
    }
}

pub fn exec_mkpart_gpt_sfdisk<H: Host>(host: &mut H, device: &str, layout: &Vec<Part>, ids: &Vec<(String, String)>) -> (r:
    Result<(), String>)
    ensures
        (final(host).machine(), unit_result(r)) == write_sfdisk::<H>(
            old(host).machine(),
            device@,
            parts(layout@),
            text_table(ids@),
        ),
{
    let ghost list = parts(layout@);
    let mut script = String::new();
    let mut i: usize = 0;
    assert(list.take(0) =~= Seq::empty());
    while i < layout.len()
        invariant
            i <= layout@.len(),
            list == parts(layout@),
            script@ == sfdisk_script(text_table(ids@), list.take(i as int)),
            host.machine() == unknown_told::<H>(old(host).machine(), text_table(ids@), list.take(i as int)),
        decreases layout.len() - i,
    {
        let part = &layout[i];
        let kind = sfdisk_type_of(ids, &part.kind, host);
        let line = if same(part.end.as_str(), "0") {
            cat3(",,", kind.as_str(), "\n")
        } else {
            cat5(",", part.end.as_str(), ",", kind.as_str(), "\n")
        };
        script.append(line.as_str());
        i += 1;
        assert(list.take(i as int).last() == part@);
        assert(list.take(i as int).drop_last() =~= list.take(i - 1));
    }
    assert(list.take(i as int) =~= list);
    let env: Vec<(String, String)> = Vec::new();
    assert(text_table(env@) =~= Seq::empty());
    match run_input_of(host, &argv5("sfdisk", "-X", "gpt", "--force", device), Some(script.as_str()), &env) {
        Ok(_) => Ok(()),
        Err(e) => {
            log_warn(host, cat2("Failed to partition device ", device).as_str());
            Err(e.to_text())
        },
    }
}

/// Writes a GPT table.
pub open spec fn write_gpt<H: Host>(
    m: Disks<H>,
    device: Seq<char>,
    list: Seq<PartSpec>,
    ids: Seq<(Seq<char>, Seq<char>)>,
) -> (Disks<H>, Result<(), Seq<char>>) {
    let (m1, tool) = which::<H>(m, "sgdisk"@);
    let (m2, written) = if tool is Some {
        write_sgdisk::<H>(m1, device, list)
    } else {
        write_sfdisk::<H>(m1, device, list, ids)
    };
    match written {
        Err(e) => (m2, Err(e)),
        Ok(()) => reread::<H>(m2, device),
    }
}

pub fn exec_mkpart_gpt<H: Host>(host: &mut H, device: &str, layout: &Vec<Part>, ids: &Vec<(String, String)>) -> (r: Result<
    (),
    String,
>)
    ensures
        (final(host).machine(), unit_result(r)) == write_gpt::<H>(
            old(host).machine(),
            device@,
            parts(layout@),
            text_table(ids@),
        ),
{
    let written = if host.which("sgdisk").is_some() {
        exec_mkpart_gpt_sgdisk(host, device, layout)
    } else {
        exec_mkpart_gpt_sfdisk(host, device, layout, ids)
    };
    match written {
        Ok(()) => read_parttbl(host, device),
        Err(e) => Err(e),
    }
}

// ---------------------------------------------------------------------------
// The whole

pub open spec fn missing(device: Seq<char>) -> Seq<char> {
    "Device "@ + device + " did not exist and was not created with a udevadm settle."@
}

/// Makes sure that a device is there, and that its events are handled.
pub open spec fn ready<H: Host>(m: Disks<H>, device: Seq<char>) -> (Disks<H>, Result<(), Seq<char>>) {
    let (m1, there) = exists_at::<H>(m, device);
    if there {
        settle::<H>(m1)
    } else {
        let (m2, settled) = settle::<H>(m1);
        match settled {
            Err(e) => (m2, Err(e)),
            Ok(()) => {
                let (m3, now) = exists_at::<H>(m2, device);
                if now {
                    settle::<H>(m3)
                } else {
                    (m3, Err(missing(device)))
                }
            },
        }
    }
}

pub fn assert_and_settle_device<H: Host>(host: &mut H, device: &str) -> (r: Result<(), String>)
    ensures
        (final(host).machine(), unit_result(r)) == ready::<H>(old(host).machine(), device@),
{
    if !host.path_exists(device) {
        match udevadm_settle(host) {
            Ok(()) => {},
            Err(e) => return Err(e),
        }
        if !host.path_exists(device) {
            return Err(cat3("Device ", device, " did not exist and was not created with a udevadm settle."));
        }
    }
    udevadm_settle(host)
}

pub open spec fn resolve<H: Host>(m: Disks<H>, path: Seq<char>) -> (Disks<H>, Seq<char>) {
    let (w, a) = H::reply(m.world, Call::RealPath(path));
    (asked(m, Call::RealPath(path), w), a->Text_0)
}

/// What a definition holds under a key, or a default.
pub open spec fn setting(definition: Seq<(Seq<char>, Val)>, key: Seq<char>, default: Val) -> Val {
    match get(definition, key) {
        Some(v) => v,
        None => default,
    }
}

pub fn setting_of(definition: &Object, key: &str, default: Node) -> (r: Node)
    ensures
        r@ == setting(definition@, key@, default@),
{
    match definition.get(key) {
        Some(v) => v.clone(),
        None => default,
    }
}

/// Whether a disk holds something that must not be overwritten.
pub open spec fn occupied<H: Host>(m: Disks<H>, device: Seq<char>) -> (Disks<H>, Result<bool, Seq<char>>) {
    let (m1, used) = in_use::<H>(m, device);
    match used {
        Err(e) => (m1, Err(e)),
        Ok(true) => (m1, Ok(true)),
        Ok(false) => {
            let (m2, info) = filesystem::<H>(m1, device);
            (
                m2,
                match info {
                    Err(e) => Err(e),
                    Ok(tags) => Ok(filled(tags.fs_type)),
                },
            )
        },
    }
}

fn is_occupied<H: Host>(host: &mut H, device: &str) -> (r: Result<bool, String>)
    ensures
        (final(host).machine(), crate::cc::disk_setup::probe::flag_result(r)) == occupied::<H>(
            old(host).machine(),
            device@,
        ),
{
    match is_disk_used(host, device) {
        Err(e) => Err(e),
        Ok(true) => Ok(true),
        Ok(false) => match check_fs(host, device) {
            Err(e) => Err(e),
            Ok(tags) => Ok(truthy_opt(&tags.1)),
        },
    }
}

/// One partition as it is printed.
pub open spec fn part_text(part: PartSpec) -> Seq<char> {
    "("@ + repr(part.kind) + ", ["@ + part.start + ", "@ + (if part.end == "0"@ {
        "0"@
    } else {
        quoted(part.end)
    }) + "])"@
}

/// Partitions as they are printed.
pub open spec fn parts_text(list: Seq<PartSpec>) -> Seq<char> {
    "["@ + join(Seq::new(list.len(), |i: int| part_text(list[i])), ", "@) + "]"@
}

fn show_parts(layout: &Vec<Part>) -> (r: String)
    ensures
        r@ == parts_text(parts(layout@)),
{
    broadcast use texts_push;
    let ghost all = parts(layout@);
    let ghost want = Seq::new(all.len(), |i: int| part_text(all[i]));
    let mut out: Vec<String> = Vec::new();
    let mut i: usize = 0;
    assert(texts(out@) =~= want.take(0));
    while i < layout.len()
        invariant
            i <= layout@.len(),
            all == parts(layout@),
            want == Seq::new(all.len(), |i: int| part_text(all[i])),
            texts(out@) == want.take(i as int),
        decreases layout.len() - i,
    {
        let part = &layout[i];
        assert(all[i as int] == part@);
        let end = if same(part.end.as_str(), "0") {
            "0".to_owned()
        } else {
            repr_str(part.end.as_str())
        };
        let kind = repr_of(&part.kind);
        out.push(cat7("(", kind.as_str(), ", [", part.start.as_str(), ", ", end.as_str(), "])"));
        i += 1;
        assert(want.take(i as int) =~= want.take(i - 1).push(want[i - 1]));
    }
    assert(want.take(i as int) =~= want);
    cat3("[", join_with(&out, ", ").as_str(), "]")
}

/// Says what is written, before it is.
pub open spec fn creation_told<H: Host>(m: Disks<H>, device: Seq<char>, layout: Seq<char>) -> Disks<H> {
    logged::<H>(logged::<H>(m, "   Layout is: "@ + layout), "Creating partition table on "@ + device)
}

fn tell_creation<H: Host>(host: &mut H, device: &str, layout: &str)
    ensures
        final(host).machine() == creation_told::<H>(old(host).machine(), device@, layout@),
{
    log_debug(host, cat2("   Layout is: ", layout).as_str());
    log_debug(host, cat2("Creating partition table on ", device).as_str());
}

/// Writes a table of a kind for a layout, once it is clear that it may be.
pub open spec fn table_written<H: Host>(
    m: Disks<H>,
    table_type: Seq<char>,
    device: Seq<char>,
    layout: Val,
    ids: Seq<(Seq<char>, Seq<char>)>,
) -> (Disks<H>, Result<(), Seq<char>>) {
    let (m0, size) = disk_size::<H>(logged::<H>(m, "Checking for device size of "@ + device), device);
    match size {
        Err(e) => (m0, Err(e)),
        Ok(size) => {
            let m1 = logged::<H>(m0, "Calculating partition layout"@);
            if table_type == "mbr"@ {
                let (m2, script) = mbr_script::<H>(m1, size, layout);
                match script {
                    Err(e) => (m2, Err(e)),
                    Ok(script) => write_mbr::<H>(creation_told::<H>(m2, device, script), device, script),
                }
            } else if table_type == "gpt"@ {
                let (m2, list) = gpt_plan::<H>(m1, size, layout);
                match list {
                    Err(e) => (m2, Err(e)),
                    Ok(list) => write_gpt::<H>(creation_told::<H>(m2, device, parts_text(list)), device, list, ids),
                }
            } else {
                (m1, Err("Unable to determine table type"@))
            }
        },
    }
}

/// Writes a table, and says that it is there.
pub open spec fn write_table<H: Host>(
    m: Disks<H>,
    table_type: Seq<char>,
    device: Seq<char>,
    layout: Val,
    ids: Seq<(Seq<char>, Seq<char>)>,
) -> (Disks<H>, Result<(), Seq<char>>) {
    let (m1, written) = table_written::<H>(m, table_type, device, layout, ids);
    match written {
        Err(e) => (m1, Err(e)),
        Ok(()) => (logged::<H>(m1, "Partition table created for "@ + device), Ok(())),
    }
}

fn try_table<H: Host>(
    host: &mut H,
    table_type: &str,
    device: &str,
    layout: &Node,
    ids: &Vec<(String, String)>,
) -> (r: Result<(), String>)
    ensures
        (final(host).machine(), unit_result(r)) == table_written::<H>(
            old(host).machine(),
            table_type@,
            device@,
            layout@,
            text_table(ids@),
        ),
{
    log_debug(host, cat2("Checking for device size of ", device).as_str());
    let size = match get_hdd_size(host, device) {
        Ok(size) => size,
        Err(e) => return Err(e),
    };
    log_debug(host, "Calculating partition layout");
    if same(table_type, "mbr") {
        match get_partition_mbr_layout(host, size, layout) {
            Err(e) => Err(e),
            Ok(script) => {
                tell_creation(host, device, script.as_str());
                exec_mkpart_mbr(host, device, script.as_str())
            },
        }
    } else if same(table_type, "gpt") {
        match get_partition_gpt_layout(host, size, layout) {
            Err(e) => Err(e),
            Ok(list) => {
                tell_creation(host, device, show_parts(&list).as_str());
                exec_mkpart_gpt(host, device, &list, ids)
            },
        }
    } else {
        Err("Unable to determine table type".to_owned())
    }
}

fn make_table<H: Host>(
    host: &mut H,
    table_type: &str,
    device: &str,
    layout: &Node,
    ids: &Vec<(String, String)>,
) -> (r: Result<(), String>)
    ensures
        (final(host).machine(), unit_result(r)) == write_table::<H>(
            old(host).machine(),
            table_type@,
            device@,
            layout@,
            text_table(ids@),
        ),
{
    match try_table(host, table_type, device, layout, ids) {
        Ok(()) => {
            log_debug(host, cat2("Partition table created for ", device).as_str());
            Ok(())
        },
        Err(e) => Err(e),
    }
}

/// What is said before a definition is looked at.
pub open spec fn definition_told<H: Host>(m: Disks<H>, device: Seq<char>) -> Disks<H> {
    logged::<H>(
        logged::<H>(m, "Checking values for "@ + device + " definition"@),
        "Checking against default devices"@,
    )
}

/// Whether a device that is to be partitioned is a whole disk.
pub open spec fn checked_disk<H: Host>(m: Disks<H>, device: Seq<char>) -> (Disks<H>, bool) {
    is_disk::<H>(
        logged::<H>(definition_told::<H>(m, device), "Checking if device "@ + device + " is a valid device"@),
        device,
    )
}

/// Whether a disk that is to be partitioned has its layout already.
pub open spec fn checked_layout<H: Host>(
    m: Disks<H>,
    device: Seq<char>,
    definition: Seq<(Seq<char>, Val)>,
    ids: Seq<(Seq<char>, Seq<char>)>,
) -> (Disks<H>, Result<bool, Seq<char>>) {
    has_layout::<H>(
        logged::<H>(m, "Checking if device layout matches"@),
        show(setting(definition, "table_type"@, Val::Text("mbr"@))),
        device,
        setting(definition, "layout"@, Val::Bool(false)),
        ids,
    )
}

/// Whether a disk must not be written to: it holds something.
pub open spec fn checked_use<H: Host>(m: Disks<H>, device: Seq<char>, definition: Seq<(Seq<char>, Val)>) -> (
    Disks<H>,
    Result<bool, Seq<char>>,
) {
    let m1 = logged::<H>(m, "Checking if device is safe to partition"@);
    if truthy(setting(definition, "overwrite"@, Val::Bool(false))) {
        (m1, Ok(false))
    } else {
        occupied::<H>(m1, device)
    }
}

/// Partitions a device that has been resolved.
pub open spec fn partition_resolved<H: Host>(
    m: Disks<H>,
    device: Seq<char>,
    definition: Seq<(Seq<char>, Val)>,
    ids: Seq<(Seq<char>, Seq<char>)>,
) -> (Disks<H>, Result<(), Seq<char>>) {
    let layout = setting(definition, "layout"@, Val::Bool(false));
    let table_type = show(setting(definition, "table_type"@, Val::Text("mbr"@)));
    if !truthy(layout) {
        (logged::<H>(definition_told::<H>(m, device), "Device is not to be partitioned, skipping"@), Ok(()))
    } else {
        let (m1, whole) = checked_disk::<H>(m, device);
        if !whole {
            (m1, Err("Device "@ + device + " is not a disk device!"@))
        } else if layout is Text && fold(layout->Text_0) == "remove"@ {
            purge::<H>(logged::<H>(m1, "Instructed to remove partition table entries"@), device)
        } else {
            let (m2, there) = checked_layout::<H>(m1, device, definition, ids);
            match there {
                Err(e) => (m2, Err(e)),
                Ok(true) => (logged::<H>(m2, "Device partitioning layout matches"@), Ok(())),
                Ok(false) => {
                    let (m3, taken) = checked_use::<H>(m2, device, definition);
                    match taken {
                        Err(e) => (m3, Err(e)),
                        Ok(true) => (
                            logged::<H>(m3, "Skipping partitioning on configured device "@ + device),
                            Ok(()),
                        ),
                        Ok(false) => write_table::<H>(m3, table_type, device, layout, ids),
                    }
                },
            }
        }
    }
}

/// Partitions a device as its definition says.
pub open spec fn partition<H: Host>(
    m: Disks<H>,
    device: Seq<char>,
    definition: Seq<(Seq<char>, Val)>,
    ids: Seq<(Seq<char>, Seq<char>)>,
) -> (Disks<H>, Result<(), Seq<char>>) {
    let (m1, there) = ready::<H>(m, device);
    match there {
        Err(e) => (m1, Err(e)),
        Ok(()) => {
            let (m2, resolved) = resolve::<H>(m1, device);
            partition_resolved::<H>(m2, resolved, definition, ids)
        },
    }
}

pub fn mkpart<H: Host>(host: &mut H, device: &str, definition: &Object, ids: &Vec<(String, String)>) -> (r: Result<(), String>)
    ensures
        (final(host).machine(), unit_result(r)) == partition::<H>(
            old(host).machine(),
            device@,
            definition@,
            text_table(ids@),
        ),
{
    match assert_and_settle_device(host, device) {
        Ok(()) => {},
        Err(e) => return Err(e),
    }
    let device = host.realpath(device);
    let device = device.as_str();
    log_debug(host, cat3("Checking values for ", device, " definition").as_str());
    log_debug(host, "Checking against default devices");
    let overwrite = setting_of(definition, "overwrite", Node::Bool(false));
    let layout = setting_of(definition, "layout", Node::Bool(false));
    let table_type = setting_of(definition, "table_type", Node::text("mbr"));
    if !py_truthy(&layout) {
        log_debug(host, "Device is not to be partitioned, skipping");
        return Ok(());
    }
    log_debug(host, cat3("Checking if device ", device, " is a valid device").as_str());
    // This keeps a partition or a volume from being taken for a disk.
    if !is_device_valid(host, device, false) {
        return Err(cat3("Device ", device, " is not a disk device!"));
    }
    if let Node::Text(text) = &layout {
        if same(fold_of(text.as_str()).as_str(), "remove") {
            log_debug(host, "Instructed to remove partition table entries");
            return purge_disk(host, device);
        }
    }
    let table_type = py_str(&table_type);
    log_debug(host, "Checking if device layout matches");
    match check_partition_layout(host, table_type.as_str(), device, &layout, ids) {
        Err(e) => return Err(e),
        Ok(true) => {
            log_debug(host, "Device partitioning layout matches");
            return Ok(());
        },
        Ok(false) => {},
    }
    log_debug(host, "Checking if device is safe to partition");
    if !py_truthy(&overwrite) {
        match is_occupied(host, device) {
            Err(e) => return Err(e),
            Ok(true) => {
                log_debug(host, cat2("Skipping partitioning on configured device ", device).as_str());
                return Ok(());
            },
            Ok(false) => {},
        }
    }
    make_table(host, table_type.as_str(), device, &layout, ids)
}

// ---------------------------------------------------------------------------
// Laws

/// A disk that has the layout already is left alone, even where it may be
/// overwritten: nothing is asked but what it took to find that out, and a line says so.
pub proof fn a_finished_disk_is_left_alone<H: Host>(
    m: Disks<H>,
    device: Seq<char>,
    definition: Seq<(Seq<char>, Val)>,
    ids: Seq<(Seq<char>, Seq<char>)>,
    found: Disks<H>,
)
    requires
        truthy(setting(definition, "layout"@, Val::Bool(false))),
        checked_disk::<H>(m, device).1,
        !(setting(definition, "layout"@, Val::Bool(false)) matches Val::Text(s) && fold(s) == "remove"@),
        checked_layout::<H>(checked_disk::<H>(m, device).0, device, definition, ids) == (
            found,
            Ok::<bool, Seq<char>>(true),
        ),
    ensures
        partition_resolved::<H>(m, device, definition, ids) == (
            logged::<H>(found, "Device partitioning layout matches"@),
            Ok::<(), Seq<char>>(()),
        ),
{
}

/// A disk that holds something is not written to unless the definition says that it
/// may be overwritten.
pub proof fn an_occupied_disk_is_left_alone<H: Host>(
    m: Disks<H>,
    device: Seq<char>,
    definition: Seq<(Seq<char>, Val)>,
    ids: Seq<(Seq<char>, Seq<char>)>,
    found: Disks<H>,
)
    requires
        truthy(setting(definition, "layout"@, Val::Bool(false))),
        checked_disk::<H>(m, device).1,
        !(setting(definition, "layout"@, Val::Bool(false)) matches Val::Text(s) && fold(s) == "remove"@),
        checked_layout::<H>(checked_disk::<H>(m, device).0, device, definition, ids) == (
            found,
            Ok::<bool, Seq<char>>(false),
        ),
        checked_use::<H>(found, device, definition).1 == Ok::<bool, Seq<char>>(true),
    ensures
        !truthy(setting(definition, "overwrite"@, Val::Bool(false))),
        partition_resolved::<H>(m, device, definition, ids) == (
            logged::<H>(
                checked_use::<H>(found, device, definition).0,
                "Skipping partitioning on configured device "@ + device,
            ),
            Ok::<(), Seq<char>>(()),
        ),
{
}

/// What is no whole disk is never partitioned: nothing is asked but whether it is
/// one, and that is an error.
pub proof fn only_disks_are_partitioned<H: Host>(
    m: Disks<H>,
    device: Seq<char>,
    definition: Seq<(Seq<char>, Val)>,
    ids: Seq<(Seq<char>, Seq<char>)>,
)
    requires
        truthy(setting(definition, "layout"@, Val::Bool(false))),
        !checked_disk::<H>(m, device).1,
    ensures
        partition_resolved::<H>(m, device, definition, ids) == (
            checked_disk::<H>(m, device).0,
            Err::<(), Seq<char>>("Device "@ + device + " is not a disk device!"@),
        ),
{
}

}
