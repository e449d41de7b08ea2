//! Partition tables: what is on a disk, and whether it is what is wanted.

use vstd::prelude::*;

use crate::cc::disk_setup::host::{failure_told, log_failure, Host};
use crate::cc::disk_setup::probe::{lang_c, lang_c_env, run, run_full, run_input_of, run_of, which, Disks};
use crate::cc::growpart::{error_text, Failed};
use crate::json::{json_of, parse_json};
use crate::machine::text_table;
use crate::number::{parse_i64, signed};
use crate::show::{py_str, quoted, repr_str, show};
use crate::space::{
    all_in, all_within, feed_lines, feed_lines_of, fold, fold_of, trim, trim_of, trim_start, trim_start_of, words,
    words_of, Class,
};
use crate::text::{
    argv2, argv3, argv4, cat2, cat4, contains, holds, opt_text, prepend, prepend_empty, prepend_push, same, starts,
    starts_with, texts,
};
use crate::value::{get, vals, Node, Val};

verus! {

// ---------------------------------------------------------------------------
// Settling

pub open spec fn unit_result(r: Result<(), String>) -> Result<(), Seq<char>> {
    match r {
        Ok(()) => Ok(()),
        Err(e) => Err(e@),
    }
}

/// Waits until the device events are handled, where the tool for it is there.
pub open spec fn settle<H: Host>(m: Disks<H>) -> (Disks<H>, Result<(), Seq<char>>) {
    let (m1, tool) = which::<H>(m, "udevadm"@);
    if tool is None {
        (m1, Ok(()))
    } else {
        let (m2, out) = run::<H>(m1, seq!["udevadm"@, "settle"@]);
        (
            m2,
            match out {
                Ok(_) => Ok(()),
                Err(e) => Err(error_text(e)),
            },
        )
    }
}

pub fn udevadm_settle<H: Host>(host: &mut H) -> (r: Result<(), String>)
    ensures
        (final(host).machine(), unit_result(r)) == settle::<H>(old(host).machine()),
{
    if host.which("udevadm").is_none() {
        return Ok(());
    }
    match run_of(host, &argv2("udevadm", "settle")) {
        Ok(_) => Ok(()),
        Err(e) => Err(e.to_text()),
    }
}

/// Has the kernel read a partition table again. That it cannot is said in the log;
/// that the events before or after it cannot be waited for is one.
pub open spec fn reread<H: Host>(m: Disks<H>, device: Seq<char>) -> (Disks<H>, Result<(), Seq<char>>) {
    let (m1, tool) = which::<H>(m, "partprobe"@);
    let probe = if tool is Some {
        seq!["partprobe"@, device]
    } else {
        seq!["blockdev"@, "--rereadpt"@, device]
    };
    let (m2, settled) = settle::<H>(m1);
    match settled {
        Err(e) => (m2, Err(e)),
        Ok(()) => {
            let (m3, read) = run::<H>(m2, probe);
            settle::<H>(
                match read {
                    Ok(_) => m3,
                    Err(e) => failure_told::<H>(m3, "Failed reading the partition table "@ + error_text(e)),
                },
            )
        },
    }
}

pub fn read_parttbl<H: Host>(host: &mut H, device: &str) -> (r: Result<(), String>)
    ensures
        (final(host).machine(), unit_result(r)) == reread::<H>(old(host).machine(), device@),
{
    let probe = if host.which("partprobe").is_some() {
        argv2("partprobe", device)
    } else {
        argv3("blockdev", "--rereadpt", device)
    };
    match udevadm_settle(host) {
        Ok(()) => {},
        Err(e) => return Err(e),
    }
    match run_of(host, &probe) {
        Ok(_) => {},
        Err(e) => {
            let text = cat2("Failed reading the partition table ", e.to_text().as_str());
            log_failure(host, text.as_str());
        },
    }
    udevadm_settle(host)
}

// ---------------------------------------------------------------------------
// Size

/// The number that a tool printed.
pub open spec fn printed_number(text: Seq<char>) -> Result<int, Seq<char>> {
    match signed(trim(Class::Space, text)) {
        Some(n) => Ok(n),
        None => Err("invalid literal for int() with base 10: "@ + quoted(text)),
    }
}

pub fn py_int(text: &str) -> (r: Result<i64, String>)
    ensures
        match r {
            Ok(n) => printed_number(text@) == Ok::<int, Seq<char>>(n as int),
            Err(e) => printed_number(text@) == Err::<int, Seq<char>>(e@),
        },
{
    match parse_i64(trim_of(Class::Space, text).as_str()) {
        Some(n) => Ok(n),
        None => Err(cat2("invalid literal for int() with base 10: ", repr_str(text).as_str())),
    }
}

pub open spec fn size_failed(device: Seq<char>, e: Failed) -> Seq<char> {
    "Failed to get "@ + device + " size\n"@ + error_text(e)
}

/// The bytes of a disk and of a sector.
pub open spec fn disk_size<H: Host>(m: Disks<H>, device: Seq<char>) -> (Disks<H>, Result<(int, int), Seq<char>>) {
    let (m1, size) = run::<H>(m, seq!["blockdev"@, "--getsize64"@, device]);
    match size {
        Err(e) => (m1, Err(size_failed(device, e))),
        Ok(size) => {
            let (m2, sector) = run::<H>(m1, seq!["blockdev"@, "--getss"@, device]);
            (
                m2,
                match sector {
                    Err(e) => Err(size_failed(device, e)),
                    Ok(sector) => match (printed_number(size.0), printed_number(sector.0)) {
                        (Err(e), _) => Err(e),
                        (_, Err(e)) => Err(e),
                        (Ok(bytes), Ok(sector)) => if sector == 0 {
                            Err("division by zero"@)
                        } else {
                            Ok((bytes, sector))
                        },
                    },
                },
            )
        },
    }
}

pub open spec fn size_result(r: Result<(i64, i64), String>) -> Result<(int, int), Seq<char>> {
    match r {
        Ok(p) => Ok((p.0 as int, p.1 as int)),
        Err(e) => Err(e@),
    }
}

pub fn get_hdd_size<H: Host>(host: &mut H, device: &str) -> (r: Result<(i64, i64), String>)
    ensures
        (final(host).machine(), size_result(r)) == disk_size::<H>(old(host).machine(), device@),
{
    let size = match run_of(host, &argv3("blockdev", "--getsize64", device)) {
        Ok(out) => out.0,
        Err(e) => return Err(cat4("Failed to get ", device, " size\n", e.to_text().as_str())),
    };
    let sector = match run_of(host, &argv3("blockdev", "--getss", device)) {
        Ok(out) => out.0,
        Err(e) => return Err(cat4("Failed to get ", device, " size\n", e.to_text().as_str())),
    };
    let bytes = match py_int(size.as_str()) {
        Ok(n) => n,
        Err(e) => return Err(e),
    };
    let sector = match py_int(sector.as_str()) {
        Ok(n) => n,
        Err(e) => return Err(e),
    };
    if sector == 0 {
        return Err("division by zero".to_owned());
    }
    Ok((bytes, sector))
}

// ---------------------------------------------------------------------------
// What is on the disk

pub open spec fn opt_texts(v: Seq<Option<String>>) -> Seq<Option<Seq<char>>> {
    Seq::new(v.len(), |i: int| opt_text(v[i]))
}

pub broadcast proof fn opt_texts_push(v: Seq<Option<String>>, x: Option<String>)
    ensures
        #[trigger] opt_texts(v.push(x)) == opt_texts(v).push(opt_text(x)),
{
    assert(opt_texts(v.push(x)) =~= opt_texts(v).push(opt_text(x)));
}

pub open spec fn types_result(r: Result<Vec<Option<String>>, String>) -> Result<Seq<Option<Seq<char>>>, Seq<char>> {
    match r {
        Ok(v) => Ok(opt_texts(v@)),
        Err(e) => Err(e@),
    }
}

pub open spec fn is_digits(s: Seq<char>) -> bool {
    s.len() > 0 && all_within(Class::Digit, s)
}

pub fn py_isdigit(text: &str) -> (r: bool)
    ensures
        r == is_digits(text@),
{
    !text.is_empty() && all_in(Class::Digit, text)
}

/// The last field behind the first that is a number.
pub open spec fn last_number(fields: Seq<Seq<char>>) -> Option<Seq<char>>
    decreases fields.len(),
{
    if fields.len() <= 1 {
        None
    } else if is_digits(fields.last()) {
        Some(fields.last())
    } else {
        last_number(fields.drop_last())
    }
}

fn last_number_of(fields: &Vec<String>) -> (r: Option<String>)
    ensures
        opt_text(r) == last_number(texts(fields@)),
{
    let ghost all = texts(fields@);
    let mut n: usize = fields.len();
    assert(all.take(n as int) =~= all);
    while n > 1
        invariant
            n <= fields@.len(),
            all == texts(fields@),
            last_number(all.take(n as int)) == last_number(all),
        decreases n,
    {
        assert(all.take(n as int).last() == fields@[n - 1]@);
        assert(all.take(n as int).drop_last() =~= all.take(n - 1));
        if py_isdigit(fields[n - 1].as_str()) {
            return Some(fields[n - 1].clone());
        }
        n -= 1;
    }
    None
}

/// The partition types in the lines that `sfdisk` printed of a device. Extended
/// and empty entries are passed over.
pub open spec fn mbr_types(lines: Seq<Seq<char>>, device: Seq<char>) -> Seq<Option<Seq<char>>>
    decreases lines.len(),
{
    if lines.len() == 0 {
        Seq::empty()
    } else {
        let fields = words(Class::Space, lines.last());
        let before = mbr_types(lines.drop_last(), device);
        if fields.len() == 0 || !holds(fields[0], device) || fold(fields.last()) == "extended"@ || fold(fields.last())
            == "empty"@ {
            before
        } else {
            before.push(last_number(fields))
        }
    }
}

fn mbr_types_of(out: &str, device: &str) -> (r: Vec<Option<String>>)
    ensures
        opt_texts(r@) == mbr_types(feed_lines(out@), device@),
{
    broadcast use opt_texts_push;
    let lines = feed_lines_of(out);
    let ghost all = texts(lines@);
    let mut found: Vec<Option<String>> = Vec::new();
    let mut i: usize = 0;
    assert(opt_texts(found@) =~= Seq::empty());
    assert(all.take(0) =~= Seq::empty());
    while i < lines.len()
        invariant
            i <= lines@.len(),
            all == texts(lines@),
            opt_texts(found@) == mbr_types(all.take(i as int), device@),
        decreases lines.len() - i,
    {
        let fields = words_of(Class::Space, lines[i].as_str());
        i += 1;
        assert(all.take(i as int).last() == lines@[i - 1]@);
        assert(all.take(i as int).drop_last() =~= all.take(i - 1));
        if fields.len() > 0 && contains(fields[0].as_str(), device) {
            assert(texts(fields@)[0] == fields@[0]@);
            let last = fold_of(fields[fields.len() - 1].as_str());
            assert(texts(fields@).last() == fields@[fields@.len() - 1]@);
            if !same(last.as_str(), "extended") && !same(last.as_str(), "empty") {
                found.push(last_number_of(&fields));
            }
        } else {
            assert(fields@.len() > 0 ==> texts(fields@)[0] == fields@[0]@);
        }
    }
    assert(all.take(i as int) =~= all);
    found
}

pub open spec fn table_failed(device: Seq<char>, message: Seq<char>) -> Seq<char> {
    "Error running partition command on "@ + device + "\n"@ + message
}

pub open spec fn mbr_layout<H: Host>(m: Disks<H>, device: Seq<char>, layout: Val) -> (
    Disks<H>,
    Result<Seq<Option<Seq<char>>>, Seq<char>>,
) {
    let (m1, read) = reread::<H>(m, device);
    match read {
        Err(e) => (m1, Err(e)),
        Ok(()) => {
            let (m2, out) = run_full::<H>(
                m1,
                seq!["sfdisk"@, "-l"@, device],
                Some(show(layout) + "\n"@),
                Seq::empty(),
                seq![0int],
            );
            (
                m2,
                match out {
                    Ok(o) => Ok(mbr_types(feed_lines(o.0), device)),
                    Err(e) => Err(table_failed(device, error_text(e))),
                },
            )
        },
    }
}

pub fn check_partition_mbr_layout<H: Host>(host: &mut H, device: &str, layout: &Node) -> (r: Result<
    Vec<Option<String>>,
    String,
>)
    ensures
        (final(host).machine(), types_result(r)) == mbr_layout::<H>(old(host).machine(), device@, layout@),
{
    match read_parttbl(host, device) {
        Ok(()) => {},
        Err(e) => return Err(e),
    }
    let data = cat2(py_str(layout).as_str(), "\n");
    let env: Vec<(String, String)> = Vec::new();
    assert(text_table(env@) =~= Seq::empty());
    match run_input_of(host, &argv3("sfdisk", "-l", device), Some(data.as_str()), &env) {
        Ok(out) => Ok(mbr_types_of(out.0.as_str(), device)),
        Err(e) => Err(cat4("Error running partition command on ", device, "\n", e.to_text().as_str())),
    }
}

/// The lines behind the first that starts with `Number`.
pub open spec fn behind_header(lines: Seq<Seq<char>>) -> Seq<Seq<char>>
    decreases lines.len(),
{
    if lines.len() == 0 {
        lines
    } else if starts(trim_start(Class::Space, lines[0]), "Number"@) {
        lines.skip(1)
    } else {
        behind_header(lines.skip(1))
    }
}

/// The sixth field of each line.
pub open spec fn sixth_fields(lines: Seq<Seq<char>>) -> Result<Seq<Option<Seq<char>>>, Seq<char>>
    decreases lines.len(),
{
    if lines.len() == 0 {
        Ok(Seq::empty())
    } else {
        let fields = words(Class::Space, lines[0]);
        if fields.len() <= 5 {
            Err("list index out of range"@)
        } else {
            prepend(seq![Some(fields[5])], sixth_fields(lines.skip(1)))
        }
    }
}

fn sgdisk_types(out: &str) -> (r: Result<Vec<Option<String>>, String>)
    ensures
        types_result(r) == sixth_fields(behind_header(feed_lines(out@))),
{
    broadcast use opt_texts_push;
    let lines = feed_lines_of(out);
    let ghost all = texts(lines@);
    let mut i: usize = 0;
    let mut header = false;
    assert(all.skip(0) =~= all);
    while i < lines.len() && !header
        invariant
            i <= lines@.len(),
            all == texts(lines@),
            behind_header(all) == if header {
                all.skip(i as int)
            } else {
                behind_header(all.skip(i as int))
            },
        decreases lines.len() - i,
    {
        assert(all.skip(i as int)[0] == lines@[i as int]@);
        assert(all.skip(i as int).skip(1) =~= all.skip(i + 1));
        if starts_with(trim_start_of(Class::Space, lines[i].as_str()).as_str(), "Number") {
            header = true;
        }
        i += 1;
    }
    let ghost body = behind_header(all);
    assert(body =~= all.skip(i as int));
    let mut found: Vec<Option<String>> = Vec::new();
    proof {
        assert(opt_texts(found@) =~= Seq::empty());
        prepend_empty(sixth_fields(body));
    }
    while i < lines.len()
        invariant
            i <= lines@.len(),
            all == texts(lines@),
            body == behind_header(feed_lines(out@)),
            prepend(opt_texts(found@), sixth_fields(all.skip(i as int))) == sixth_fields(body),
        decreases lines.len() - i,
    {
        assert(all.skip(i as int)[0] == lines@[i as int]@);
        assert(all.skip(i as int).skip(1) =~= all.skip(i + 1));
        let fields = words_of(Class::Space, lines[i].as_str());
        if fields.len() <= 5 {
            return Err("list index out of range".to_owned());
        }
        assert(texts(fields@)[5] == fields@[5]@);
        proof {
            prepend_push(opt_texts(found@), Some(fields@[5]@), sixth_fields(all.skip(i + 1)));
        }
        let ghost before = opt_texts(found@);
        found.push(Some(fields[5].clone()));
        assert(opt_texts(found@) =~= before.push(Some(fields@[5]@)));
        i += 1;
    }
    assert(opt_texts(found@) + Seq::<Option<Seq<char>>>::empty() =~= opt_texts(found@));
    Ok(found)
}

pub open spec fn sgdisk_layout<H: Host>(m: Disks<H>, device: Seq<char>) -> (
    Disks<H>,
    Result<Seq<Option<Seq<char>>>, Seq<char>>,
) {
    let (m1, out) = run_full::<H>(m, seq!["sgdisk"@, "-p"@, device], None, lang_c(), seq![0int]);
    (
        m1,
        match out {
            Ok(o) => sixth_fields(behind_header(feed_lines(o.0))),
            Err(e) => Err(table_failed(device, error_text(e))),
        },
    )
}

pub fn check_partition_gpt_layout_sgdisk<H: Host>(host: &mut H, device: &str) -> (r: Result<Vec<Option<String>>, String>)
    ensures
        (final(host).machine(), types_result(r)) == sgdisk_layout::<H>(old(host).machine(), device@),
{
    match run_input_of(host, &argv3("sgdisk", "-p", device), None, &lang_c_env()) {
        Ok(out) => sgdisk_types(out.0.as_str()),
        Err(e) => Err(cat4("Error running partition command on ", device, "\n", e.to_text().as_str())),
    }
}

/// What a value holds under a key, where it is a mapping.
pub open spec fn member(v: Val, key: Seq<char>) -> Option<Val> {
    match v {
        Val::Object(m) => get(m, key),
        _ => None,
    }
}

fn member_of<'a>(v: &'a Node, key: &str) -> (r: Option<&'a Node>)
    ensures
        match r {
            Some(x) => member(v@, key@) == Some(x@),
            None => member(v@, key@) is None,
        },
{
    match v {
        Node::Object(o) => o.get(key),
        _ => None,
    }
}

/// The printed `type` of each partition.
pub open spec fn partition_types(parts: Seq<Val>) -> Result<Seq<Option<Seq<char>>>, Seq<char>>
    decreases parts.len(),
{
    if parts.len() == 0 {
        Ok(Seq::empty())
    } else {
        match member(parts[0], "type"@) {
            Some(kind) => prepend(seq![Some(show(kind))], partition_types(parts.skip(1))),
            None => Err("'type'"@),
        }
    }
}

/// The partition types in what `sfdisk` printed as JSON, once it is read. A table
/// without a list of partitions has none.
pub open spec fn listed_types(parsed: Val) -> Result<Seq<Option<Seq<char>>>, Seq<char>> {
    match member(parsed, "partitiontable"@) {
        None => Err("'partitiontable'"@),
        Some(table) => match member(table, "partitions"@) {
            Some(Val::Array(parts)) => partition_types(parts),
            _ => Ok(Seq::empty()),
        },
    }
}

/// The partition types in a parsed report.
pub fn types_in(parsed: &Node) -> (r: Result<Vec<Option<String>>, String>)
    ensures
        types_result(r) == listed_types(parsed@),
{
    broadcast use opt_texts_push;
    let mut found: Vec<Option<String>> = Vec::new();
    assert(opt_texts(found@) =~= Seq::empty());
    let table = match member_of(parsed, "partitiontable") {
        Some(table) => table,
        None => return Err("'partitiontable'".to_owned()),
    };
    match member_of(table, "partitions") {
        Some(Node::Array(parts)) => {
            let ghost all = vals(parts@);
            let mut i: usize = 0;
            proof {
                assert(all.skip(0) =~= all);
                prepend_empty(partition_types(all));
            }
            while i < parts.len()
                invariant
                    i <= parts@.len(),
                    all == vals(parts@),
                    listed_types(parsed@) == partition_types(all),
                    prepend(opt_texts(found@), partition_types(all.skip(i as int))) == partition_types(all),
                decreases parts.len() - i,
            {
                assert(all.skip(i as int)[0] == parts@[i as int]@);
                assert(all.skip(i as int).skip(1) =~= all.skip(i + 1));
                match member_of(&parts[i], "type") {
                    Some(kind) => {
                        let text = py_str(kind);
                        proof {
                            prepend_push(opt_texts(found@), Some(text@), partition_types(all.skip(i + 1)));
                        }
                        let ghost before = opt_texts(found@);
                        found.push(Some(text));
                        assert(opt_texts(found@) =~= before.push(Some(text@)));
                    },
                    None => return Err("'type'".to_owned()),
                }
                i += 1;
            }
            assert(opt_texts(found@) + Seq::<Option<Seq<char>>>::empty() =~= opt_texts(found@));
            Ok(found)
        },
        _ => Ok(found),
    }
}

pub open spec fn sfdisk_layout<H: Host>(m: Disks<H>, device: Seq<char>) -> (
    Disks<H>,
    Result<Seq<Option<Seq<char>>>, Seq<char>>,
) {
    let (m1, out) = run_full::<H>(m, seq!["sfdisk"@, "-l"@, "-J"@, device], None, lang_c(), seq![0int]);
    (
        m1,
        match out {
            Err(e) => Err(table_failed(device, error_text(e))),
            Ok(o) => match json_of(o.0) {
                Err(e) => Err(table_failed(device, e)),
                Ok(parsed) => match listed_types(parsed) {
                    Err(e) => Err(table_failed(device, e)),
                    Ok(types) => Ok(types),
                },
            },
        },
    )
}

pub fn check_partition_gpt_layout_sfdisk<H: Host>(host: &mut H, device: &str) -> (r: Result<Vec<Option<String>>, String>)
    ensures
        (final(host).machine(), types_result(r)) == sfdisk_layout::<H>(old(host).machine(), device@),
{
    let out = match run_input_of(host, &argv4("sfdisk", "-l", "-J", device), None, &lang_c_env()) {
        Ok(out) => out.0,
        Err(e) => return Err(cat4("Error running partition command on ", device, "\n", e.to_text().as_str())),
    };
    let types = match parse_json(out.as_str()) {
        Ok(parsed) => types_in(&parsed),
        Err(e) => Err(e),
    };
    match types {
        Ok(types) => Ok(types),
        Err(e) => Err(cat4("Error running partition command on ", device, "\n", e.as_str())),
    }
}

pub open spec fn gpt_layout<H: Host>(m: Disks<H>, device: Seq<char>) -> (
    Disks<H>,
    Result<Seq<Option<Seq<char>>>, Seq<char>>,
) {
    let (m1, tool) = which::<H>(m, "sgdisk"@);
    if tool is Some {
        sgdisk_layout::<H>(m1, device)
    } else {
        sfdisk_layout::<H>(m1, device)
    }
}

pub fn check_partition_gpt_layout<H: Host>(host: &mut H, device: &str) -> (r: Result<Vec<Option<String>>, String>)
    ensures
        (final(host).machine(), types_result(r)) == gpt_layout::<H>(old(host).machine(), device@),
{
    if host.which("sgdisk").is_some() {
        check_partition_gpt_layout_sgdisk(host, device)
    } else {
        check_partition_gpt_layout_sfdisk(host, device)
    }
}

}
