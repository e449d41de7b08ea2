//! What growing partitions promises: the tools it runs and what it makes of them.

use vstd::prelude::*;

use crate::b64::decoded;
use crate::cc::growpart::{decided, row_told, settings_decided, DEFAULT_TEXT, Failed, OpenFailure};
use crate::cc::growpart::devices::{
    call_tool, device_round, encrypted, entry_device, grow_encrypted, grow_mapped, is_device_mode, key_in, key_of,
    part_info, root_device, round, rounds, seen, size_message, sole_dependency, underlying, MappedSpec, NoDevice,
    NoPart, Resize, RoundSpec, Row,
};
use crate::cc::growpart::host::{logged, Answer, Call, Grown, Host};
use crate::cc::growpart::resize::{
    choose_tool, grow, grow_within, size_of, usable, NoTool, ResizeFailure, Resizer, Sizes,
};
use crate::machine::Level;
use crate::number::dec;
use crate::number::laws::a_written_number;
use crate::paths::joined;
use crate::paths::laws::{below_a_directory, names_behind_slashes};
use crate::rootdev::root_of;
use crate::show::laws::plain_auto;
use crate::space::{is_white, trim, trim_end, within, Class};
use crate::text::{has_is_somewhere, holds, stands_at, starts};
use crate::text::laws::{first_found, first_of_split};
use crate::value::{get, Val};

verus! {

/// The state of a machine after a call.
pub open spec fn next<H: Host>(world: H::World, call: Call) -> H::World {
    H::reply(world, call).0
}

/// What a machine answers to a call.
pub open spec fn said<H: Host>(world: H::World, call: Call) -> Answer {
    H::reply(world, call).1
}

/// A command without variables and input.
pub open spec fn plain_command(argv: Seq<Seq<char>>) -> Call {
    Call::Subp { argv, env: Seq::empty(), data: None }
}

/// A command with its messages in English.
pub open spec fn english_command(argv: Seq<Seq<char>>) -> Call {
    Call::Subp { argv, env: seq![("LANG"@, "C"@)], data: None }
}

/// A `growpart` command, with a directory of its own.
pub open spec fn growpart_command(argv: Seq<Seq<char>>, tmp: Seq<char>) -> Call {
    Call::Subp { argv, env: seq![("LANG"@, "C"@), ("TMPDIR"@, tmp)], data: None }
}

/// `growpart` is tried before it is run, on the disk and the number of the partition.
/// It is run where the trial ended well, and it is no failure that the trial ended
/// with exit code one: then nothing is changed.
pub proof fn growpart_is_tried_first<H: Host>(m: Grown<H>, tmp: Seq<char>, disk: Seq<char>, number: Seq<char>)
    requires
        said::<H>(m.world, Call::Exists(tmp)) == Answer::Flag(true),
    ensures
        ({
            let (m1, r) = grow_within::<H>(m, tmp, disk, number);
            let trial = growpart_command(seq!["growpart"@, "--dry-run"@, disk, number], tmp);
            let actual = growpart_command(seq!["growpart"@, disk, number], tmp);
            let w1 = next::<H>(m.world, Call::Exists(tmp));
            let tried = said::<H>(w1, trial)->Output_0;
            let ran = said::<H>(next::<H>(w1, trial), actual)->Output_0;
            let n = m.calls.len() as int;
            &&& m1.calls[n] == Call::Exists(tmp)
            &&& m1.calls[n + 1] == trial
            &&& tried is Ok ==> m1.calls.len() > n + 2 && m1.calls[n + 2] == actual
            &&& tried is Ok && ran is Ok ==> r == Ok::<bool, ResizeFailure>(true)
            &&& tried is Ok && ran is Err ==> r is Err && r->Err_0 is Failed
            &&& tried is Err && (tried->Err_0).exit_code == Some(1int) ==> m1.calls.len() == n + 2 && r == Ok::<
                bool,
                ResizeFailure,
            >(false)
            &&& tried is Err && (tried->Err_0).exit_code != Some(1int) ==> r is Err && r->Err_0 is Failed
                && forall|i: int| n + 2 <= i < m1.calls.len() ==> #[trigger] m1.calls[i] is Report
        }),
{
}

/// A directory that `growpart` is to use is made where it is not there.
pub proof fn the_directory_is_made<H: Host>(m: Grown<H>, tmp: Seq<char>, disk: Seq<char>, number: Seq<char>)
    requires
        said::<H>(m.world, Call::Exists(tmp)) == Answer::Flag(false),
    ensures
        ({
            let (m1, r) = grow_within::<H>(m, tmp, disk, number);
            let made = said::<H>(next::<H>(m.world, Call::Exists(tmp)), Call::MkDir(tmp));
            let n = m.calls.len() as int;
            &&& m1.calls[n + 1] == Call::MkDir(tmp)
            &&& made == Answer::Done(Ok(())) ==> m1.calls[n + 2] == growpart_command(
                seq!["growpart"@, "--dry-run"@, disk, number],
                tmp,
            )
            &&& made is Done && made->Done_0 is Err ==> m1.calls.len() == n + 2 && r == Err::<bool, ResizeFailure>(
                ResizeFailure::Fatal(made->Done_0->Err_0),
            )
        }),
{
}

/// The size of a device is taken before the tool runs and, where it changed
/// something, after it. The tool works in the directory `growpart` below one that is
/// made for it and taken away.
pub proof fn sizes_before_and_after<H: Host>(
    m: Grown<H>,
    disk: Seq<char>,
    number: Seq<char>,
    path: Seq<char>,
    fs: Option<Seq<char>>,
    before: u64,
    dir: Seq<char>,
    tmp: Seq<char>,
)
    requires
        said::<H>(m.world, Call::SeekSize(path)) == Answer::Size(Ok(before)),
        ({
            let w1 = next::<H>(m.world, Call::SeekSize(path));
            &&& said::<H>(w1, Call::TmpExecPath) == Answer::Text(dir)
            &&& said::<H>(next::<H>(w1, Call::TmpExecPath), Call::MkdTemp(dir)) == Answer::Read(Ok(tmp + "/"@))
        }),
    ensures
        ({
            let (m1, r) = grow::<H>(m, Resizer::GrowPart, disk, number, path, fs);
            let n = m.calls.len() as int;
            let w1 = next::<H>(m.world, Call::SeekSize(path));
            let w2 = next::<H>(w1, Call::TmpExecPath);
            let start = Grown::<H> {
                calls: m.calls.push(Call::SeekSize(path)).push(Call::TmpExecPath).push(Call::MkdTemp(dir)),
                world: next::<H>(w2, Call::MkdTemp(dir)),
            };
            let (inner, changed) = grow_within::<H>(start, tmp + "/"@ + "growpart"@, disk, number);
            let gone = next::<H>(inner.world, Call::RmTree(tmp + "/"@));
            let after = said::<H>(gone, Call::SeekSize(path))->Size_0;
            let k = inner.calls.len() as int;
            &&& m1.calls.len() > k
            &&& m1.calls.take(k) =~= inner.calls
            &&& m1.calls[k] == Call::RmTree(tmp + "/"@)
            &&& changed == Ok::<bool, ResizeFailure>(false) ==> r == Ok::<Sizes, ResizeFailure>(
                (Some(before), Some(before)),
            ) && m1.calls.len() == k + 1
            &&& changed == Ok::<bool, ResizeFailure>(true) ==> m1.calls.len() > k + 1 && m1.calls[k + 1]
                == Call::SeekSize(path)
            &&& changed == Ok::<bool, ResizeFailure>(true) && after is Ok ==> r == Ok::<Sizes, ResizeFailure>(
                (Some(before), Some(after->Ok_0)),
            )
            &&& changed is Err ==> r is Err && r->Err_0 == changed->Err_0
        }),
{
    reveal_strlit("/");
    let whole = tmp + "/"@;
    assert(whole.skip(whole.len() - 1) =~= "/"@);
    assert(joined(whole, "growpart"@) == whole + "growpart"@);
    let (m1, r) = grow::<H>(m, Resizer::GrowPart, disk, number, path, fs);
}

/// A filesystem is grown by its service, once.
pub proof fn the_service_grows_a_filesystem<H: Host>(
    m: Grown<H>,
    disk: Seq<char>,
    number: Seq<char>,
    path: Seq<char>,
    fs: Option<Seq<char>>,
    before: u64,
)
    requires
        said::<H>(m.world, Call::SeekSize(path)) == Answer::Size(Ok(before)),
    ensures
        ({
            let (m1, r) = grow::<H>(m, Resizer::GrowFS, disk, number, path, fs);
            let n = m.calls.len() as int;
            let start = Call::ManageService { action: "onestart"@, service: "growfs"@ };
            let w1 = next::<H>(m.world, Call::SeekSize(path));
            let started = said::<H>(w1, start)->Service_0;
            let after = said::<H>(next::<H>(w1, start), Call::SeekSize(path))->Size_0;
            &&& m1.calls[n] == Call::SeekSize(path)
            &&& m1.calls[n + 1] == start
            &&& started is Ok ==> m1.calls[n + 2] == Call::SeekSize(path)
            &&& started is Err ==> r is Err && r->Err_0 is Failed
            &&& started is Ok && after is Ok ==> m1.calls.len() == n + 3 && r == Ok::<Sizes, ResizeFailure>(
                (Some(before), Some(after->Ok_0)),
            )
        }),
{
}

/// `gpart` recovers the table of the disk before it resizes the partition.
pub proof fn gpart_recovers_and_resizes<H: Host>(
    m: Grown<H>,
    disk: Seq<char>,
    number: Seq<char>,
    path: Seq<char>,
    fs: Option<Seq<char>>,
    before: u64,
)
    requires
        said::<H>(next::<H>(m.world, plain_command(seq!["gpart"@, "recover"@, disk])), Call::SeekSize(path))
            == Answer::Size(Ok(before)),
    ensures
        ({
            let (m1, r) = grow::<H>(m, Resizer::Gpart, disk, number, path, fs);
            let n = m.calls.len() as int;
            let recover = plain_command(seq!["gpart"@, "recover"@, disk]);
            let resize = plain_command(seq!["gpart"@, "resize"@, "-i"@, number, disk]);
            let recovered = said::<H>(m.world, recover)->Output_0;
            let w2 = next::<H>(next::<H>(m.world, recover), Call::SeekSize(path));
            let resized = said::<H>(w2, resize)->Output_0;
            let after = said::<H>(next::<H>(w2, resize), Call::SeekSize(path))->Size_0;
            &&& m1.calls[n] == recover
            &&& recovered is Err && (recovered->Err_0).exit_code == Some(2int) ==> r is Err && r->Err_0 is Failed
                && m1.calls.len() == n + 3
            &&& recovered is Ok ==> m1.calls[n + 1] == Call::SeekSize(path) && m1.calls[n + 2] == resize
            &&& recovered is Ok && resized is Err ==> r is Err && r->Err_0 is Failed
            &&& recovered is Ok && resized is Ok && after is Ok ==> m1.calls.len() == n + 4 && r == Ok::<
                Sizes,
                ResizeFailure,
            >((Some(before), Some(after->Ok_0)))
        }),
{
}

/// `growpart` can be used where its help offers to update the kernel's table.
pub proof fn when_growpart_is_usable<H: Host>(m: Grown<H>, devices: Seq<Val>, head: Seq<char>, tail: Seq<char>)
    ensures
        ({
            let help = english_command(seq!["growpart"@, "--help"@]);
            let (m1, there) = usable::<H>(m, Resizer::GrowPart, devices);
            let out = said::<H>(m.world, help)->Output_0;
            &&& m1.calls == m.calls.push(help)
            &&& out is Err ==> !there
            &&& out is Ok && (out->Ok_0).0 == head + "--update"@ + " "@ + tail ==> there
            &&& out is Ok && !holds((out->Ok_0).0, "--update"@) ==> !there
        }),
{
    reveal_strlit("--update");
    reveal_strlit(" ");
    let help = english_command(seq!["growpart"@, "--help"@]);
    let out = said::<H>(m.world, help)->Output_0;
    if out is Ok {
        let text = (out->Ok_0).0;
        if text == head + "--update"@ + " "@ + tail {
            let i = head.len() as int;
            assert(text.subrange(i, i + "--update"@.len()) =~= "--update"@);
            assert(stands_at(text, "--update"@, i));
            assert(text[i + 8] == ' ');
            assert(is_white(' '));
        }
        if !holds(text, "--update"@) {
            assert forall|i: int| !stands_at(text, "--update"@, i) by {
                has_is_somewhere(text, "--update"@);
            }
        }
    }
}

/// The service that grows filesystems can be used for the root alone.
pub proof fn when_growfs_is_usable<H: Host>(m: Grown<H>, devices: Seq<Val>)
    ensures
        ({
            let (m1, there) = usable::<H>(m, Resizer::GrowFS, devices);
            &&& m1.calls == m.calls.push(Call::IsFile("/etc/rc.d/growfs"@))
            &&& there == (said::<H>(m.world, Call::IsFile("/etc/rc.d/growfs"@))->Flag_0 && devices.len() == 1
                && devices[0] == Val::Text("/"@))
        }),
{
    let one = seq![Val::Text("/"@)];
    if devices.len() == 1 && devices[0] == Val::Text("/"@) {
        assert(devices =~= one);
    }
}

/// `gpart` can be used where it knows how to recover a table; to ask for help ends
/// with exit code one.
pub proof fn when_gpart_is_usable<H: Host>(m: Grown<H>, devices: Seq<Val>)
    ensures
        ({
            let help = english_command(seq!["gpart"@, "help"@]);
            let (m1, there) = usable::<H>(m, Resizer::Gpart, devices);
            let out = said::<H>(m.world, help)->Output_0;
            &&& m1.calls == m.calls.push(help)
            &&& out is Ok ==> there == holds((out->Ok_0).1, "gpart recover "@)
            &&& out is Err && (out->Err_0).exit_code == Some(1int) ==> there == holds(
                (out->Err_0).stderr,
                "gpart recover "@,
            )
            &&& out is Err && (out->Err_0).exit_code != Some(1int) ==> !there
        }),
{
}

/// A tool that is named is asked for alone, and is the one that is taken.
pub proof fn a_named_tool_is_taken<H: Host>(m: Grown<H>, devices: Seq<Val>)
    ensures
        ({
            let name = Val::Text("growpart"@);
            let (m1, r) = choose_tool::<H>(m, name, devices);
            let (m2, there) = usable::<H>(m, Resizer::GrowPart, devices);
            m1 == m2 && (there ==> r == Ok::<Resizer, NoTool>(Resizer::GrowPart)) && (!there ==> r is Err && r->Err_0
                is Value)
        }),
        ({
            let name = Val::Text("growfs"@);
            let (m1, r) = choose_tool::<H>(m, name, devices);
            let (m2, there) = usable::<H>(m, Resizer::GrowFS, devices);
            m1 == m2 && (there ==> r == Ok::<Resizer, NoTool>(Resizer::GrowFS)) && (!there ==> r is Err && r->Err_0
                is Value)
        }),
        ({
            let name = Val::Text("gpart"@);
            let (m1, r) = choose_tool::<H>(m, name, devices);
            let (m2, there) = usable::<H>(m, Resizer::Gpart, devices);
            m1 == m2 && (there ==> r == Ok::<Resizer, NoTool>(Resizer::Gpart)) && (!there ==> r is Err && r->Err_0
                is Value)
        }),
        forall|name: Seq<char>|
            name != "auto"@ && name != "growpart"@ && name != "growfs"@ && name != "gpart"@ ==> {
                let (m1, r) = #[trigger] choose_tool::<H>(m, Val::Text(name), devices);
                m1 == m && r is Err && r->Err_0 is Type
            },
{
    reveal_strlit("auto");
    reveal_strlit("growpart");
    reveal_strlit("growfs");
    reveal_strlit("gpart");
    assert("auto"@.len() == 4 && "growpart"@.len() == 8 && "growfs"@.len() == 6 && "gpart"@.len() == 5);
}

/// Where the choice is left open, `growpart` comes before the service, and that
/// before `gpart`; a tool behind one that can be used is not asked for.
pub proof fn the_first_tool_is_taken<H: Host>(m: Grown<H>, devices: Seq<Val>)
    ensures
        ({
            let (m1, r) = choose_tool::<H>(m, Val::Text("auto"@), devices);
            let (a, first) = usable::<H>(m, Resizer::GrowPart, devices);
            let (b, second) = usable::<H>(a, Resizer::GrowFS, devices);
            let (c, third) = usable::<H>(b, Resizer::Gpart, devices);
            &&& first ==> m1 == a && r == Ok::<Resizer, NoTool>(Resizer::GrowPart)
            &&& !first && second ==> m1 == b && r == Ok::<Resizer, NoTool>(Resizer::GrowFS)
            &&& !first && !second && third ==> m1 == c && r == Ok::<Resizer, NoTool>(Resizer::Gpart)
            &&& !first && !second && !third ==> m1 == c && r == Err::<Resizer, NoTool>(
                NoTool::Value("No resizers available"@),
            )
        }),
{
}

/// Where nothing is said of devices, the root is grown; where there is a list, what is
/// on the list.
pub proof fn which_devices_are_grown<H: Host>(m: Grown<H>, s: Seq<(Seq<char>, Val)>)
    ensures
        ({
            let r = settings_decided::<H>(m, s).1;
            r is Ok && r->Ok_0 is Some ==> {
                let devices = (r->Ok_0->0).1;
                &&& get(s, "devices"@) is None ==> devices == seq![Val::Text("/"@)]
                &&& get(s, "devices"@) is Some && get(s, "devices"@)->0 is Array ==> devices == get(s, "devices"@)->0->Array_0
                &&& devices.len() > 0
            }
        }),
        get(s, "devices"@) == Some(Val::Null) ==> settings_decided::<H>(m, s).1 !is Err && settings_decided::<H>(
            m,
            s,
        ).1->Ok_0 is None,
{
}

/// The file that switches growing off is looked at first and ends it, unless it is to
/// be ignored.
pub proof fn the_file_switches_growing_off<H: Host>(m: Grown<H>, s: Seq<(Seq<char>, Val)>)
    requires
        get(s, "mode"@) is None,
    ensures
        ({
            let (m1, r) = settings_decided::<H>(m, s);
            let n = m.calls.len() as int;
            let file = Call::IsFile("/etc/growroot-disabled"@);
            &&& get(s, "ignore_growroot_disabled"@) is None || get(s, "ignore_growroot_disabled"@) == Some(
                Val::Bool(false),
            ) ==> {
                &&& m1.calls.len() > n && m1.calls[n] == file
                &&& said::<H>(m.world, file) == Answer::Flag(true) ==> r is Ok && r->Ok_0 is None && forall|i: int|
                    n < i < m1.calls.len() ==> #[trigger] m1.calls[i] is Report
            }
            &&& get(s, "ignore_growroot_disabled"@) == Some(Val::Bool(true)) && get(s, "devices"@) is None
                ==> m1.calls.len() > n && m1.calls[n] == english_command(seq!["growpart"@, "--help"@])
        }),
{
    reveal_strlit("auto");
    reveal_strlit("off");
    reveal_strlit("0");
    reveal_strlit("no");
    reveal_strlit("false");
    plain_auto();
    let file = Call::IsFile("/etc/growroot-disabled"@);
    let (m1, r) = settings_decided::<H>(m, s);
}

/// A device is its own; of a mount point it is what is mounted there.
pub proof fn the_device_of_an_entry<H: Host>(m: Grown<H>, name: Seq<char>)
    ensures
        entry_device::<H>(m, Val::Text("/dev/"@ + name)) == (
            m,
            Ok::<(Seq<char>, Option<Seq<char>>), NoDevice>(("/dev/"@ + name, None)),
        ),
{
    let whole = "/dev/"@ + name;
    assert(whole.subrange(0, "/dev/"@.len() as int) =~= "/dev/"@);
    assert(starts(whole, "/dev/"@));
}

/// A mount point stands for the device on it, with the filesystem's kind.
pub proof fn the_device_of_a_mount_point<H: Host>(m: Grown<H>, entry: Seq<char>)
    requires
        entry.len() > 0,
        entry.len() < 5,
    ensures
        ({
            let (m1, r) = entry_device::<H>(m, Val::Text(entry));
            let n = m.calls.len() as int;
            let mount = said::<H>(m.world, Call::MountInfo(entry))->Mount_0;
            &&& m1.calls[n] == Call::MountInfo(entry)
            &&& mount is None ==> m1.calls.len() == n + 1 && r is Err && r->Err_0 is Value
            &&& mount is Some && (mount->0).devpth != "/dev/root"@ ==> r == Ok::<
                (Seq<char>, Option<Seq<char>>),
                NoDevice,
            >(((mount->0).devpth, Some((mount->0).fs_type)))
            &&& r is Ok ==> mount is Some && (r->Ok_0).1 == Some((mount->0).fs_type)
        }),
{
    reveal_strlit("/dev/");
    assert("/dev/"@.len() == 5);
}

/// The questions by which the disk of a partition is found: the number is in the
/// kernel's directory of the partition, the disk's in the directory above it.
pub proof fn the_disk_of_a_partition<H: Host>(
    m: Grown<H>,
    device: Seq<char>,
    name: Seq<char>,
    number: Seq<char>,
    above: Seq<char>,
    own: Seq<char>,
    ids: Seq<char>,
)
    requires
        !name.contains('/'),
        !own.contains('/'),
        above.len() > 0,
        above.last() != '/',
        name.len() > 0,
        ({
            let sys = "/sys/class/block/"@ + name;
            let w1 = next::<H>(m.world, Call::RealPath(device));
            let w2 = next::<H>(w1, Call::Exists(sys));
            let w3 = next::<H>(w2, Call::Exists(sys + "/"@ + "partition"@));
            let w4 = next::<H>(w3, Call::ReadText(sys + "/"@ + "partition"@));
            let w5 = next::<H>(w4, Call::RealPath(sys));
            &&& said::<H>(m.world, Call::RealPath(device)) == Answer::Text("/dev/"@ + name)
            &&& said::<H>(w1, Call::Exists(sys)) == Answer::Flag(true)
            &&& said::<H>(w2, Call::Exists(sys + "/"@ + "partition"@)) == Answer::Flag(true)
            &&& said::<H>(w3, Call::ReadText(sys + "/"@ + "partition"@)) == Answer::Read(Ok(number))
            &&& said::<H>(w4, Call::RealPath(sys)) == Answer::Text(above + "/"@ + own)
            &&& said::<H>(w5, Call::ReadText(above + "/"@ + "dev"@)) == Answer::Read(Ok(ids))
        }),
    ensures
        ({
            let (m1, r) = part_info::<H>(m, device);
            let sys = "/sys/class/block/"@ + name;
            let w1 = next::<H>(m.world, Call::RealPath(device));
            let w2 = next::<H>(w1, Call::Exists(sys));
            let w3 = next::<H>(w2, Call::Exists(sys + "/"@ + "partition"@));
            let w4 = next::<H>(w3, Call::ReadText(sys + "/"@ + "partition"@));
            let w5 = next::<H>(w4, Call::RealPath(sys));
            let w6 = next::<H>(w5, Call::ReadText(above + "/"@ + "dev"@));
            let ask = Call::RealPath("/dev/block/"@ + trim_end(Class::Space, ids));
            &&& m1.calls == m.calls + seq![
                Call::RealPath(device),
                Call::Exists(sys),
                Call::Exists(sys + "/"@ + "partition"@),
                Call::ReadText(sys + "/"@ + "partition"@),
                Call::RealPath(sys),
                Call::ReadText(above + "/"@ + "dev"@),
                ask,
            ]
            &&& r is Ok
            &&& (r->Ok_0).0 == said::<H>(w6, ask)->Text_0
            &&& (r->Ok_0).1 == trim_end(Class::Space, number)
        }),
{
    reveal_strlit("/dev/");
    reveal_strlit("/");
    reveal_strlit("/sys/class/block/");
    let d = "/dev"@;
    reveal_strlit("/dev");
    assert("/dev/"@ + name =~= d + seq!['/'] + name);
    names_behind_slashes(d, name);
    assert(above + "/"@ + own =~= above + seq!['/'] + own);
    names_behind_slashes(above, own);
    let sys = "/sys/class/block/"@ + name;
    assert(sys.last() == name.last());
    assert(name.contains(name.last()));
    below_a_directory(sys, "partition"@);
    below_a_directory(above, "dev"@);
}

/// What is not in the kernel's list is no partition, and no failure.
pub proof fn what_is_no_partition<H: Host>(m: Grown<H>, device: Seq<char>)
    ensures
        ({
            let (m1, r) = part_info::<H>(m, device);
            r is Err && r->Err_0 is Skip <==> m1.calls.len() <= m.calls.len() + 3
        }),
{
}

/// An encrypted volume is one that `cryptsetup` has open, on a partition that it
/// knows for one of its own.
pub proof fn what_is_encrypted<H: Host>(m: Grown<H>, device: Seq<char>, partition: Seq<char>)
    ensures
        ({
            let (m1, r) = encrypted::<H>(m, device, partition);
            let n = m.calls.len() as int;
            let which = Call::Which("cryptsetup"@);
            let status = plain_command(seq!["cryptsetup"@, "status"@, device]);
            let luks = plain_command(seq!["cryptsetup"@, "isLuks"@, partition]);
            let w1 = next::<H>(m.world, which);
            let w2 = next::<H>(w1, status);
            let there = said::<H>(m.world, which)->Flag_0;
            let open = said::<H>(w1, status)->Output_0 is Ok;
            &&& r == (there && open && said::<H>(w2, luks)->Output_0 is Ok)
            &&& m1.calls[n] == which
            &&& there ==> m1.calls[n + 1] == status
            &&& there && open ==> m1.calls[n + 2] == luks
        }),
{
}

/// A mapped device is on the one partition that `dmsetup` names.
pub proof fn the_partition_of_a_mapped_device<H: Host>(m: Grown<H>, device: Seq<char>)
    ensures
        ({
            let (m1, r) = underlying::<H>(m, device);
            let deps = plain_command(seq!["dmsetup"@, "deps"@, "--options=devname"@, device]);
            &&& m1.calls == m.calls.push(deps)
            &&& said::<H>(m.world, deps)->Output_0 is Err ==> r is Err
        }),
{
}

/// The name of the partition is what stands in the round brackets.
pub proof fn the_name_in_brackets(name: Seq<char>, device: Seq<char>)
    requires
        !name.contains(')'),
    ensures
        sole_dependency("1 dependencies\t: ("@ + name + ")\n"@, device) == Ok::<Seq<char>, Seq<char>>("/dev/"@ + name),
{
    reveal_strlit("1 dependencies\t: (");
    reveal_strlit(")\n");
    reveal_strlit("1 depend");
    reveal_strlit(": (");
    reveal_strlit(")");
    let out = "1 dependencies\t: ("@ + name + ")\n"@;
    assert(out.subrange(0, 8) =~= "1 depend"@);
    let sep = ": ("@;
    assert forall|i: int| 0 <= i < 15 implies !stands_at(out, sep, i) by {
        if stands_at(out, sep, i) {
            assert(out.subrange(i, i + 3)[0] == sep[0]);
            assert(out[i] == ':');
        }
    }
    assert(out.subrange(15, 18) =~= sep);
    first_found(out, sep, 0, 15);
    let rest = out.skip(18);
    assert(rest =~= name + ")\n"@);
    let close = ")"@;
    assert forall|i: int| 0 <= i < name.len() implies !stands_at(rest, close, i) by {
        if stands_at(rest, close, i) {
            assert(rest.subrange(i, i + 1)[0] == ')');
            assert(rest[i] == name[i]);
        }
    }
    assert(rest.subrange(name.len() as int, name.len() as int + 1) =~= close);
    first_found(rest, close, 0, name.len() as int);
    first_of_split(rest, close, name.len() as int);
    assert(rest.take(name.len() as int) =~= name);
}

/// The key goes to the tool as its input, and the volume is resized by its name.
pub proof fn a_volume_is_resized_with_its_key<H: Host>(
    m: Grown<H>,
    device: Seq<char>,
    partition: Seq<char>,
    raw: Result<Seq<char>, Seq<char>>,
    key: Seq<u8>,
    slot: Seq<char>,
)
    requires
        said::<H>(m.world, Call::ReadKeydata) == Answer::KeyData(Some(raw)),
        key_of(raw) == Some((key, slot)),
    ensures
        ({
            let (m1, r) = grow_encrypted::<H>(m, device, partition);
            let n = m.calls.len() as int;
            let resize = Call::Subp {
                argv: seq!["cryptsetup"@, "--key-file"@, "-"@, "resize"@, device],
                env: Seq::empty(),
                data: Some(key),
            };
            let done = said::<H>(next::<H>(m.world, Call::ReadKeydata), resize)->Output_0;
            &&& m1.calls[n] == Call::ReadKeydata
            &&& m1.calls[n + 1] == resize
            &&& done is Ok <==> r is Ok
            &&& r is Ok ==> (r->Ok_0).0 == Resize::Changed
        }),
{
}

/// A key file holds the key in base 64, and the slot beside it.
pub proof fn what_a_key_file_holds(m: Seq<(Seq<char>, Val)>, key: Seq<char>, bytes: Seq<u8>, slot: Seq<char>)
    requires
        get(m, "key"@) == Some(Val::Text(key)),
        get(m, "slot"@) == Some(Val::Text(slot)),
        decoded(key) == Some(bytes),
    ensures
        key_in(Val::Object(m)) == Some((bytes, slot)),
{
}

/// A mapped device that is no encrypted volume is skipped; an encrypted one waits
/// until its partition was dealt with.
pub proof fn what_becomes_of_a_mapped_device<H: Host>(
    m: Grown<H>,
    device: Seq<char>,
    node: Seq<char>,
    info: Seq<Row>,
    partition: Seq<char>,
)
    requires
        underlying::<H>(m, device).1 == Ok::<Seq<char>, Seq<char>>(partition),
    ensures
        ({
            let (m1, r) = grow_mapped::<H>(m, device, node, info);
            let (asked, luks) = encrypted::<H>(underlying::<H>(m, device).0, node, partition);
            &&& !luks ==> m1 == asked && r is Ok && r->Ok_0 is Done && r->Ok_0->Done_0 == Resize::Skipped
            &&& luks && !seen(info, partition) ==> m1 == asked && r == Ok::<MappedSpec, Seq<char>>(
                MappedSpec::Requeue(partition),
            )
            &&& luks && seen(info, partition) ==> m1.calls.len() > asked.calls.len() && m1.calls[asked.calls.len() as int]
                == Call::ReadKeydata && (r is Ok ==> r->Ok_0 is Done)
        }),
{
}

/// Whether a device was changed is told by its sizes.
pub proof fn sizes_tell_a_change<H: Host>(
    m: Grown<H>,
    tool: Resizer,
    devent: Val,
    disk: Seq<char>,
    number: Seq<char>,
    device: Seq<char>,
    fs: Option<Seq<char>>,
)
    ensures
        ({
            let (m1, r) = call_tool::<H>(m, tool, devent, Some(disk), Some(number), device, fs);
            let (m2, sizes) = grow::<H>(m, tool, disk, number, device, fs);
            &&& m1 == m2
            &&& sizes is Ok && (sizes->Ok_0).0 == (sizes->Ok_0).1 ==> r is Ok && (r->Ok_0).action == Resize::Nochange
            &&& sizes is Ok && (sizes->Ok_0).0 != (sizes->Ok_0).1 ==> r is Ok && (r->Ok_0).action == Resize::Changed
            &&& sizes is Err && sizes->Err_0 is Failed ==> r is Ok && (r->Ok_0).action == Resize::Failed
            &&& sizes is Err && sizes->Err_0 is Fatal ==> r == Err::<Row, Seq<char>>(sizes->Err_0->Fatal_0)
            &&& r is Ok ==> (r->Ok_0).devent == devent
        }),
{
}

/// What is said of sizes: the old one before the new one.
pub proof fn what_is_said_of_sizes(disk: Seq<char>, number: Seq<char>, device: Seq<char>, old_size: u64, new_size: u64)
    ensures
        old_size != new_size ==> size_message(Some(disk), Some(number), device, (Some(old_size), Some(new_size)))
            == "changed ("@ + device + ") from "@ + dec(old_size as nat) + " to "@ + dec(new_size as nat),
        old_size == new_size ==> size_message(Some(disk), Some(number), device, (Some(old_size), Some(new_size)))
            == "no change necessary ("@ + disk + ", "@ + number + ")"@,
{
    if old_size == new_size {
        assert("no change necessary ("@ + (disk + ", "@ + number) + ")"@ =~= "no change necessary ("@ + disk + ", "@
            + number + ")"@);
    }
}

/// The kind of a file is in the four bits above its permissions: six is a block
/// device, two a character device.
pub proof fn which_files_are_devices(mode: u32)
    ensures
        is_device_mode(mode) <==> (mode / 4096) % 16 == 6 || (mode / 4096) % 16 == 2,
{
    assert(mode & 0o170000u32 == 0o060000u32 <==> (mode / 4096) % 16 == 6) by (bit_vector);
    assert(mode & 0o170000u32 == 0o020000u32 <==> (mode / 4096) % 16 == 2) by (bit_vector);
}

/// What is no device is skipped before anything else is asked.
pub proof fn only_devices_are_grown<H: Host>(
    m: Grown<H>,
    tool: Resizer,
    devent: Val,
    device: Seq<char>,
    fs: Option<Seq<char>>,
    info: Seq<Row>,
    mode: u32,
)
    requires
        fs != Some("zfs"@) || tool != Resizer::GrowFS,
        said::<H>(m.world, Call::StatMode(device)) == Answer::Mode(Ok(mode)),
        (mode / 4096) % 16 != 6,
        (mode / 4096) % 16 != 2,
    ensures
        ({
            let (m1, r) = device_round::<H>(m, tool, devent, device, fs, info);
            &&& m1.calls == m.calls.push(Call::StatMode(device))
            &&& r is Ok && r->Ok_0 is Row && (r->Ok_0->Row_0).action == Resize::Skipped && (r->Ok_0->Row_0).devent
                == devent
        }),
{
    which_files_are_devices(mode);
}

/// A partition of a disk is grown with the tool, on its disk and by its number.
pub proof fn a_partition_is_grown_on_its_disk<H: Host>(
    m: Grown<H>,
    tool: Resizer,
    devent: Val,
    device: Seq<char>,
    fs: Option<Seq<char>>,
    info: Seq<Row>,
    mode: u32,
    actual: Seq<char>,
    disk: Seq<char>,
    number: Seq<char>,
)
    requires
        fs != Some("zfs"@) || tool != Resizer::GrowFS,
        said::<H>(m.world, Call::StatMode(device)) == Answer::Mode(Ok(mode)),
        (mode / 4096) % 16 == 6,
        ({
            let w1 = next::<H>(m.world, Call::StatMode(device));
            let start = Grown::<H> {
                calls: m.calls.push(Call::StatMode(device)).push(Call::RealPath(device)),
                world: next::<H>(w1, Call::RealPath(device)),
            };
            &&& said::<H>(w1, Call::RealPath(device)) == Answer::Text(actual)
            &&& actual.len() < 8 || actual[5] != 'd'
            &&& part_info::<H>(start, device).1 == Ok::<(Seq<char>, Seq<char>), NoPart>((disk, number))
        }),
    ensures
        ({
            let w1 = next::<H>(m.world, Call::StatMode(device));
            let start = Grown::<H> {
                calls: m.calls.push(Call::StatMode(device)).push(Call::RealPath(device)),
                world: next::<H>(w1, Call::RealPath(device)),
            };
            let (m1, r) = device_round::<H>(m, tool, devent, device, fs, info);
            let (m2, sizes) = grow::<H>(part_info::<H>(start, device).0, tool, disk, number, device, fs);
            m1 == m2 && (sizes is Ok ==> r is Ok && r->Ok_0 is Row && (r->Ok_0->Row_0).devent == devent)
        }),
{
    which_files_are_devices(mode);
    reveal_strlit("/dev/dm-");
    if starts(actual, "/dev/dm-"@) {
        assert(actual.subrange(0, 8)[5] == 'd');
    }
}

/// An entry that waits for a partition comes right behind it.
pub proof fn what_is_waited_for_comes_first<H: Host>(
    m: Grown<H>,
    tool: Resizer,
    queue: Seq<Val>,
    info: Seq<Row>,
    fuel: nat,
    partition: Seq<char>,
)
    requires
        queue.len() > 0,
        fuel > 0,
        round::<H>(m, tool, queue[0], info).1 == Ok::<RoundSpec, Seq<char>>(RoundSpec::Wait(partition)),
    ensures
        rounds::<H>(m, tool, queue, info, fuel) == rounds::<H>(
            round::<H>(m, tool, queue[0], info).0,
            tool,
            queue.insert(0, Val::Text(partition)),
            info,
            (fuel - 1) as nat,
        ),
{
    assert(seq![Val::Text(partition)] + queue =~= queue.insert(0, Val::Text(partition)));
}

/// One line for an outcome; it is louder where something was changed.
pub proof fn a_line_for_an_outcome<H: Host>(m: Grown<H>, entry: Seq<char>, message: Seq<char>)
    ensures
        row_told::<H>(m, Row { devent: Val::Text(entry), action: Resize::Changed, message }).calls == m.calls.push(
            Call::Report {
                level: Level::Info,
                source: "cc_growpart.py"@,
                text: "'"@ + entry + "' "@ + "resized: "@ + message,
            },
        ),
        row_told::<H>(m, Row { devent: Val::Text(entry), action: Resize::Skipped, message }).calls == m.calls.push(
            Call::Report {
                level: Level::Debug,
                source: "cc_growpart.py"@,
                text: "'"@ + entry + "' "@ + "SKIPPED"@ + ": "@ + message,
            },
        ),
        row_told::<H>(m, Row { devent: Val::Text(entry), action: Resize::Nochange, message }).calls == m.calls.push(
            Call::Report {
                level: Level::Debug,
                source: "cc_growpart.py"@,
                text: "'"@ + entry + "' "@ + "NOCHANGE"@ + ": "@ + message,
            },
        ),
        row_told::<H>(m, Row { devent: Val::Text(entry), action: Resize::Failed, message }).calls == m.calls.push(
            Call::Report {
                level: Level::Debug,
                source: "cc_growpart.py"@,
                text: "'"@ + entry + "' "@ + "FAILED"@ + ": "@ + message,
            },
        ),
{
}

/// Where there is no entry for growing, the root is grown with what is there.
pub proof fn without_an_entry_the_root_is_grown<H: Host>(m: Grown<H>, cfg: Seq<(Seq<char>, Val)>)
    requires
        get(cfg, "growpart"@) is None,
    ensures
        ({
            let r = decided::<H>(m, cfg).1;
            r is Ok && (r->Ok_0 is Some ==> (r->Ok_0->0).1 == seq![Val::Text("/"@)])
        }),
{
    plain_auto();
    which_devices_are_grown::<H>(
        logged::<H>(
            m,
            "No 'growpart' entry in cfg.  Using default: "@ + DEFAULT_TEXT@,
        ),
        Seq::empty(),
    );
}

/// The size of what has no device is that of its pool, whose name stands before the first
/// slash; without pools it is unknown.
pub proof fn the_size_of_a_pool<H: Host>(m: Grown<H>, pool: Seq<char>, rest: Seq<char>, n: u64)
    requires
        !pool.contains('/'),
    ensures
        ({
            let path = pool + seq!['/'] + rest;
            let (m1, r) = size_of::<H>(m, path, Some("zfs"@));
            let look = Call::SeekSize(path);
            let ask = plain_command(seq!["zpool"@, "get"@, "-Hpovalue"@, "size"@, pool]);
            let k = m.calls.len() as int;
            let out = said::<H>(next::<H>(m.world, look), ask)->Output_0;
            said::<H>(m.world, look)->Size_0 == Err::<u64, OpenFailure>(OpenFailure::NotFound) ==> {
                &&& m1.calls.len() >= k + 2
                &&& m1.calls[k + 1] == ask
                &&& out is Err ==> r == Ok::<Option<u64>, ResizeFailure>(None)
                &&& out is Ok && (out->Ok_0).0 == dec(n as nat) ==> r == Ok::<Option<u64>, ResizeFailure>(Some(n))
            }
        }),
        ({
            let (m1, r) = size_of::<H>(m, rest, None);
            said::<H>(m.world, Call::SeekSize(rest))->Size_0 == Err::<u64, OpenFailure>(OpenFailure::NotFound) ==> r == Ok::<
                Option<u64>,
                ResizeFailure,
            >(None) && m1.calls == m.calls.push(Call::SeekSize(rest))
        }),
{
    reveal_strlit("/");
    let path = pool + seq!['/'] + rest;
    let slash = "/"@;
    let i = pool.len() as int;
    assert forall|j: int| 0 <= j < i implies !stands_at(path, slash, j) by {
        if stands_at(path, slash, j) {
            assert(path.subrange(j, j + 1)[0] == '/');
            assert(path[j] == pool[j]);
        }
    }
    assert(path.subrange(i, i + 1) =~= slash);
    first_of_split(path, slash, i);
    assert(path.take(i) =~= pool);
    a_written_number(n as nat);
    let d = dec(n as nat);
    assert(within(Class::Digit, d[0]) && within(Class::Digit, d.last()));
    assert(trim(Class::Space, d) == d);
}

/// A root that is named by the identifier of its partition is the path of that where it is
/// there, and else the first device that is found.
pub proof fn a_root_is_found_by_its_partition<H: Host>(m: Grown<H>, cmdline: Seq<char>, path: Seq<char>, criterion: Seq<char>)
    requires
        root_of(cmdline) == crate::rootdev::RootSpec::Partition(path, criterion),
    ensures
        ({
            let (m1, r) = root_device::<H>(m, cmdline);
            let look = Call::Exists(path);
            let find = Call::FindDevs(criterion);
            let found = said::<H>(next::<H>(m.world, look), find)->Texts_0;
            &&& m1.calls[m.calls.len() as int] == look
            &&& said::<H>(m.world, look) == Answer::Flag(true) ==> r == Some(path) && m1.calls == m.calls.push(look)
            &&& said::<H>(m.world, look) == Answer::Flag(false) ==> m1.calls == m.calls.push(look).push(find)
            &&& said::<H>(m.world, look) == Answer::Flag(false) && found.len() > 0 ==> r == Some(found[0])
            &&& said::<H>(m.world, look) == Answer::Flag(false) && found.len() == 0 ==> r == Some(path)
        }),
{
}

} // verus!
