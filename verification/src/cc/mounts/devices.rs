//! The devices that mounts name.

use vstd::prelude::*;

use crate::cc::mounts::host::{
    ask_path_exists, ask_read_file, ask_real_name, Host, Step, StepSpec, Table,
};
use crate::cc::mounts::{dotted, expand_dotted_devname};
use crate::machine::{lookup, lookup_text, text_table};
use crate::paths::{path_join, path_joined};
use crate::pattern::{device_form, found, network_form};
use crate::show::{py_str, show};
use crate::space::{text_lines, text_lines_of, words, words_of, Class};
use crate::text::{cat2, cat3, cat4, contains, holds, opt_text, same, starts, starts_with, texts};
use crate::value::{get, put, Node, Object, Val};

verus! {

/// Steps.
pub open spec fn step_specs(v: Seq<Step>) -> Seq<StepSpec> {
    Seq::new(v.len(), |i: int| v[i]@)
}

pub fn push_step(steps: &mut Vec<Step>, step: Step)
    ensures
        step_specs(final(steps)@) == step_specs(old(steps)@).push(step@),
{
    let ghost before = step_specs(steps@);
    let ghost x = step@;
    steps.push(step);
    assert(step_specs(steps@) =~= before.push(x));
}

// ---------------------------------------------------------------------------
// Names

/// A name that a data source has a device for.
pub open spec fn is_metadata_name(name: Seq<char>) -> bool {
    ||| name == "ami"@
    ||| name == "root"@
    ||| name == "swap"@
    ||| starts(name, "ephemeral"@) && !holds(name, ":"@)
    ||| starts(name, "ebs"@) && !holds(name, ":"@)
}

pub fn is_meta_device_name(name: &str) -> (r: bool)
    ensures
        r == is_metadata_name(name@),
{
    if same(name, "ami") || same(name, "root") || same(name, "swap") {
        return true;
    }
    (starts_with(name, "ephemeral") && !contains(name, ":")) || (starts_with(name, "ebs") && !contains(name, ":"))
}

pub fn is_network_device(name: &str) -> (r: bool)
    ensures
        r == network_form(name@),
{
    found("^.+:.*", name)
}

/// Whether a name is that of a disk or of a drive.
pub fn is_device_name(name: &str) -> (r: bool)
    ensures
        r == device_form(name@),
{
    found("^([x]{0,1}[shv]d[a-z][0-9]*|sr[0-9]+)\\n?$", name)
}

// ---------------------------------------------------------------------------
// Looking for a device

/// The path of a partition, of the three that it can have the first that exists.
pub open spec fn partition_path<H: Host>(m: Table<H>, device: Seq<char>, partition: Seq<char>) -> (
    Table<H>,
    Option<Seq<char>>,
) {
    let (m1, first) = ask_path_exists::<H>(m, device + partition);
    if first {
        (m1, Some(device + partition))
    } else {
        let (m2, second) = ask_path_exists::<H>(m1, device + "p"@ + partition);
        if second {
            (m2, Some(device + "p"@ + partition))
        } else {
            let (m3, third) = ask_path_exists::<H>(m2, device + "-part"@ + partition);
            (
                m3,
                if third {
                    Some(device + "-part"@ + partition)
                } else {
                    None
                },
            )
        }
    }
}

fn nth_partition_for_device<H: Host>(device: &str, partition: &str, host: &mut H) -> (r: Option<String>)
    ensures
        (final(host).machine(), opt_text(r)) == partition_path::<H>(old(host).machine(), device@, partition@),
{
    let first = cat2(device, partition);
    if host.path_exists(first.as_str()) {
        return Some(first);
    }
    let second = cat3(device, "p", partition);
    if host.path_exists(second.as_str()) {
        return Some(second);
    }
    let third = cat3(device, "-part", partition);
    if host.path_exists(third.as_str()) {
        return Some(third);
    }
    None
}

/// Whether the system knows a block device, or one of its partitions.
pub open spec fn is_block<H: Host>(m: Table<H>, device: Seq<char>, partition: Option<Seq<char>>) -> (Table<H>, bool) {
    let (m1, name) = ask_real_name::<H>(m, device);
    let disk = path_joined("/sys/block"@, name);
    match partition {
        None => ask_path_exists::<H>(m1, disk),
        Some(partition) => {
            let (m2, part) = ask_real_name::<H>(m1, partition);
            ask_path_exists::<H>(m2, path_joined(disk, part))
        },
    }
}

fn is_block_device<H: Host>(device: &str, partition: &Option<String>, host: &mut H) -> (r: bool)
    ensures
        (final(host).machine(), r) == is_block::<H>(old(host).machine(), device@, opt_text(*partition)),
{
    let name = host.real_name(device);
    let disk = path_join("/sys/block", name.as_str());
    match partition {
        None => host.path_exists(disk.as_str()),
        Some(partition) => {
            let part = host.real_name(partition.as_str());
            host.path_exists(path_join(disk.as_str(), part.as_str()).as_str())
        },
    }
}

/// A device's path, or that of its partition, where the system knows it. Without a
/// number the first partition is taken where there is one; with a number it must
/// be there.
pub open spec fn known_path<H: Host>(m: Table<H>, device: Seq<char>, partition: Option<Seq<char>>) -> (
    Table<H>,
    Option<Seq<char>>,
) {
    let (m1, path) = partition_path::<H>(
        m,
        device,
        match partition {
            Some(n) => n,
            None => "1"@,
        },
    );
    if partition is Some && path is None {
        (m1, None)
    } else {
        let (m2, known) = is_block::<H>(m1, device, path);
        (
            m2,
            if !known {
                None
            } else {
                match path {
                    Some(p) => Some(p),
                    None => Some(device),
                }
            },
        )
    }
}

fn known_path_of<H: Host>(device: &str, partition: &Option<String>, host: &mut H) -> (r: Option<String>)
    ensures
        (final(host).machine(), opt_text(r)) == known_path::<H>(old(host).machine(), device@, opt_text(*partition)),
{
    let path = match partition {
        None => nth_partition_for_device(device, "1", host),
        Some(n) => match nth_partition_for_device(device, n.as_str(), host) {
            Some(path) => Some(path),
            None => return None,
        },
    };
    if !is_block_device(device, &path, host) {
        return None;
    }
    match path {
        Some(path) => Some(path),
        None => Some(device.to_owned()),
    }
}

/// What an alias stands for, where there is one.
pub open spec fn alias_of(name: Seq<char>, aliases: Seq<(Seq<char>, Val)>) -> Seq<char> {
    match get(aliases, name) {
        Some(v) => show(v),
        None => name,
    }
}

/// A name with the number that may be left out.
pub open spec fn full_name(start: Seq<char>) -> Seq<char> {
    if start == "ephemeral"@ {
        "ephemeral0"@
    } else {
        start
    }
}

/// The device that a name stands for, and what is said on the way. A network
/// address stands for itself. A name of the metadata stands for what is among the
/// devices under it.
pub open spec fn resolved<H: Host>(
    m: Table<H>,
    start: Seq<char>,
    devices: Seq<(Seq<char>, Seq<char>)>,
    aliases: Seq<(Seq<char>, Val)>,
    steps: Seq<StepSpec>,
) -> (Table<H>, Seq<StepSpec>, Option<Seq<char>>) {
    let s1 = steps.push(StepSpec::Debug("Attempting to determine the real name of "@ + start));
    let name = full_name(start);
    let s2 = if start == "ephemeral"@ {
        s1.push(StepSpec::Debug("Adjusted mount option from ephemeral to ephemeral0"@))
    } else {
        s1
    };
    if network_form(start) {
        (m, s2, Some(start))
    } else {
        let (given, partition) = dotted(name);
        let device = alias_of(given, aliases);
        let s3 = if device != given {
            s2.push(StepSpec::Debug("Mapped device alias "@ + given + " to "@ + device))
        } else {
            s2
        };
        if is_metadata_name(device) {
            match lookup(devices, device) {
                None => (m, s3, None),
                Some(found) => if found.len() == 0 {
                    (m, s3, None)
                } else {
                    let path = if starts(found, "/"@) {
                        found
                    } else {
                        "/dev/"@ + found
                    };
                    let s4 = s3.push(StepSpec::Debug("Mapped metadata name "@ + given + " to "@ + path));
                    let (m2, r) = known_path::<H>(m, path, partition);
                    (m2, s4, r)
                },
            }
        } else {
            let path = if device_form(start) {
                "/dev/"@ + device
            } else {
                device
            };
            let (m2, r) = known_path::<H>(m, path, partition);
            (m2, s3, r)
        }
    }
}

pub fn sanitize_devname<H: Host>(
    startname: &str,
    devices: &Vec<(String, String)>,
    aliases: &Object,
    steps: &mut Vec<Step>,
    host: &mut H,
) -> (r: Option<String>)
    ensures
        (final(host).machine(), step_specs(final(steps)@), opt_text(r)) == resolved::<H>(
            old(host).machine(),
            startname@,
            text_table(devices@),
            aliases@,
            step_specs(old(steps)@),
        ),
{
    push_step(steps, Step::Debug(cat2("Attempting to determine the real name of ", startname)));
    let name = if same(startname, "ephemeral") {
        push_step(steps, Step::Debug("Adjusted mount option from ephemeral to ephemeral0".to_owned()));
        "ephemeral0"
    } else {
        startname
    };
    if is_network_device(startname) {
        return Some(startname.to_owned());
    }
    let (given, partition) = expand_dotted_devname(name);
    let device = match aliases.get(given.as_str()) {
        Some(v) => py_str(v),
        None => given.clone(),
    };
    if !same(device.as_str(), given.as_str()) {
        push_step(steps, Step::Debug(cat4("Mapped device alias ", given.as_str(), " to ", device.as_str())));
    }
    if is_meta_device_name(device.as_str()) {
        let found = match lookup_text(devices, device.as_str()) {
            Some(found) => found,
            None => return None,
        };
        if found.as_str().is_empty() {
            return None;
        }
        let path = if starts_with(found.as_str(), "/") {
            found
        } else {
            cat2("/dev/", found.as_str())
        };
        push_step(steps, Step::Debug(cat4("Mapped metadata name ", given.as_str(), " to ", path.as_str())));
        return known_path_of(path.as_str(), &partition, host);
    }
    let path = if is_device_name(startname) {
        cat2("/dev/", device.as_str())
    } else {
        device
    };
    known_path_of(path.as_str(), &partition, host)
}

/// Whether a device is to be written, and what is said of it. One that there is
/// not is ignored, and so is one that the table has already.
pub open spec fn is_wanted(
    start: Seq<char>,
    device: Option<Seq<char>>,
    devs: Seq<(Seq<char>, Val)>,
    steps: Seq<StepSpec>,
) -> (Seq<StepSpec>, bool) {
    let s1 = if device != Some(start) {
        steps.push(
            StepSpec::Debug(
                "changed "@ + start + " => "@ + (match device {
                    Some(d) => d,
                    None => "None"@,
                }),
            ),
        )
    } else {
        steps
    };
    match device {
        None => (s1.push(StepSpec::Debug("Ignoring nonexistent default named mount "@ + start)), false),
        Some(d) => match get(devs, d) {
            Some(line) => (
                s1.push(StepSpec::Debug("Device "@ + d + " already defined in fstab: "@ + show(line))),
                false,
            ),
            None => (s1, true),
        },
    }
}

pub open spec fn opt_name(o: Option<&str>) -> Option<Seq<char>> {
    match o {
        Some(s) => Some(s@),
        None => None,
    }
}

pub fn sanitized_devname_is_valid(
    original: &str,
    sanitized: Option<&str>,
    fstab_devs: &Object,
    steps: &mut Vec<Step>,
) -> (r: bool)
    ensures
        (step_specs(final(steps)@), r) == is_wanted(
            original@,
            opt_name(sanitized),
            fstab_devs@,
            step_specs(old(steps)@),
        ),
{
    let unchanged = match sanitized {
        Some(d) => same(d, original),
        None => false,
    };
    if !unchanged {
        let shown = match sanitized {
            Some(d) => d,
            None => "None",
        };
        push_step(steps, Step::Debug(cat4("changed ", original, " => ", shown)));
    }
    match sanitized {
        None => {
            push_step(steps, Step::Debug(cat2("Ignoring nonexistent default named mount ", original)));
            false
        },
        Some(d) => match fstab_devs.get(d) {
            Some(line) => {
                push_step(
                    steps,
                    Step::Debug(cat4("Device ", d, " already defined in fstab: ", py_str(line).as_str())),
                );
                false
            },
            None => true,
        },
    }
}

// ---------------------------------------------------------------------------
// The table as it is

/// The file system table: the lines to keep, those lines by what they begin with,
/// and the lines that were written here before.
#[derive(Debug, Clone, PartialEq)]
pub struct Fstab {
    pub lines: Vec<String>,
    pub devs: Object,
    pub removed: Vec<String>,
}

pub struct FstabSpec {
    pub lines: Seq<Seq<char>>,
    pub devs: Seq<(Seq<char>, Val)>,
    pub removed: Seq<Seq<char>>,
}

impl View for Fstab {
    type V = FstabSpec;

    open spec fn view(&self) -> FstabSpec {
        FstabSpec { lines: texts(self.lines@), devs: self.devs@, removed: texts(self.removed@) }
    }
}

pub open spec fn empty_fstab() -> FstabSpec {
    FstabSpec { lines: Seq::empty(), devs: Seq::empty(), removed: Seq::empty() }
}

impl Default for Fstab {
    fn default() -> (r: Self)
        ensures
            r@ == empty_fstab(),
    {
        let r = Fstab { lines: Vec::new(), devs: Object::new(), removed: Vec::new() };
        assert(r@.lines =~= Seq::empty());
        assert(r@.removed =~= Seq::empty());
        r
    }
}

/// A table with a line. A line that was written here before carries a mark; one
/// without words is dropped.
pub open spec fn with_line(table: FstabSpec, line: Seq<char>) -> FstabSpec {
    let first = words(Class::Space, line);
    if holds(line, "comment=cloudconfig"@) {
        FstabSpec { removed: table.removed.push(line), ..table }
    } else if first.len() > 0 {
        FstabSpec { lines: table.lines.push(line), devs: put(table.devs, first[0], Val::Text(line)), ..table }
    } else {
        table
    }
}

/// The table with lines.
pub open spec fn with_lines(lines: Seq<Seq<char>>) -> FstabSpec
    decreases lines.len(),
{
    if lines.len() == 0 {
        empty_fstab()
    } else {
        with_line(with_lines(lines.drop_last()), lines.last())
    }
}

pub fn read_fstab(text: &str) -> (r: Fstab)
    ensures
        r@ == with_lines(text_lines(text@)),
{
    let lines = text_lines_of(text);
    let ghost all = texts(lines@);
    let mut out = Fstab::default();
    let mut i: usize = 0;
    assert(all.take(0) =~= Seq::empty());
    while i < lines.len()
        invariant
            i <= lines@.len(),
            all == texts(lines@),
            out@ == with_lines(all.take(i as int)),
        decreases lines.len() - i,
    {
        let line = lines[i].as_str();
        assert(all[i as int] == line@);
        assert(all.take(i + 1).drop_last() =~= all.take(i as int));
        let ghost before = out@;
        if contains(line, "comment=cloudconfig") {
            out.removed.push(line.to_owned());
            assert(out@.removed =~= before.removed.push(line@));
        } else {
            let first = words_of(Class::Space, line);
            assert(texts(first@).len() == first@.len());
            if first.len() > 0 {
                assert(texts(first@)[0] == first@[0]@);
                out.devs.insert(first[0].as_str(), Node::text(line));
                out.lines.push(line.to_owned());
                assert(out@.lines =~= before.lines.push(line@));
            }
        }
        i += 1;
    }
    assert(all.take(i as int) =~= all);
    out
}

/// The table that is there, if there is one that can be read.
pub open spec fn current_fstab<H: Host>(m: Table<H>) -> (Table<H>, FstabSpec) {
    let (m1, there) = ask_path_exists::<H>(m, "/etc/fstab"@);
    if !there {
        (m1, empty_fstab())
    } else {
        let (m2, text) = ask_read_file::<H>(m1, "/etc/fstab"@);
        (
            m2,
            match text {
                Some(text) => with_lines(text_lines(text)),
                None => empty_fstab(),
            },
        )
    }
}

pub fn parse_fstab<H: Host>(host: &mut H) -> (r: Fstab)
    ensures
        (final(host).machine(), r@) == current_fstab::<H>(old(host).machine()),
{
    if !host.path_exists("/etc/fstab") {
        return Fstab::default();
    }
    match host.read_file("/etc/fstab") {
        Some(text) => read_fstab(text.as_str()),
        None => Fstab::default(),
    }
}

/// Where there are no devices under names of the metadata, such a name stands for
/// none, and the machine is not asked.
pub proof fn a_metadata_name_needs_its_device<H: Host>(
    m: Table<H>,
    start: Seq<char>,
    aliases: Seq<(Seq<char>, Val)>,
    steps: Seq<StepSpec>,
)
    requires
        !network_form(start),
        is_metadata_name(alias_of(dotted(full_name(start)).0, aliases)),
    ensures
        resolved::<H>(m, start, Seq::empty(), aliases, steps).0 == m,
        resolved::<H>(m, start, Seq::empty(), aliases, steps).2 is None,
{
}

}
