//! Layouts: whether a disk has the one that is wanted, and how it is made.

use vstd::prelude::*;

use crate::case::{to_upper, uppercase};
use crate::cc::disk_setup::host::{log_debug, logged, Call, Host};
use crate::cc::disk_setup::probe::{flag_result, Disks};
use crate::cc::disk_setup::table::{
    check_partition_gpt_layout, check_partition_mbr_layout, gpt_layout, mbr_layout, opt_texts, types_result,
};
use crate::machine::{asked, lookup, lookup_text, text_table};
use crate::number::{dec_int, dec_int_of};
use crate::show::{kind_name, kind_text, py_str, quoted, repr, repr_of, repr_str, show};
use crate::space::{trim, trim_of, Class};
use crate::text::{
    cat2, cat3, cat4, cat7, join, join_with, opt_text, prepend, prepend_empty, prepend_push, same, texts, texts_push,
};
use crate::value::{vals, Node, Val};
use crate::walk::{items_of, length_of, py_iter, py_len};

verus! {

// ---------------------------------------------------------------------------
// Partition types

pub open spec fn known_length(kind: Seq<char>) -> bool {
    kind.len() == 2 || kind.len() == 4 || kind.len() == 36
}

/// A two-digit type as the four-character code it is short for.
pub open spec fn full_code(kind: Seq<char>) -> Seq<char> {
    if kind.len() == 2 {
        kind + "00"@
    } else {
        kind
    }
}

/// The GUID behind a four-character code; anything else stands for itself.
pub open spec fn guid_of(ids: Seq<(Seq<char>, Seq<char>)>, kind: Seq<char>) -> Option<Seq<char>> {
    if kind.len() == 4 {
        lookup(ids, kind)
    } else {
        Some(kind)
    }
}

/// Whether two upper-case partition types are the same type, where `ids` has the
/// GUIDs behind the codes.
pub open spec fn types_agree(found: Seq<char>, expected: Seq<char>, ids: Seq<(Seq<char>, Seq<char>)>) -> Result<
    bool,
    Seq<char>,
> {
    let f = full_code(found);
    let e = full_code(expected);
    if !known_length(found) {
        Err("Unknown partition type found: "@ + found)
    } else if !known_length(expected) {
        Err("Unknown partition type specified: "@ + found)
    } else if f.len() == e.len() {
        Ok(f == e)
    } else {
        match guid_of(ids, f) {
            None => Err("Cannot find GPT GUID for found type "@ + f),
            Some(fg) => match guid_of(ids, e) {
                None => Err("Cannot find GPT GUID for expected type "@ + fg),
                Some(eg) => Ok(fg == eg),
            },
        }
    }
}

fn full_code_of(kind: &str) -> (r: String)
    ensures
        r@ == full_code(kind@),
{
    if kind.unicode_len() == 2 {
        cat2(kind, "00")
    } else {
        kind.to_owned()
    }
}

fn guid_for(ids: &Vec<(String, String)>, kind: &str) -> (r: Option<String>)
    ensures
        opt_text(r) == guid_of(text_table(ids@), kind@),
{
    if kind.unicode_len() == 4 {
        lookup_text(ids, kind)
    } else {
        Some(kind.to_owned())
    }
}

/// Whether two upper-case partition types are the same type.
pub fn upper_types_match(found: &str, expected: &str, ids: &Vec<(String, String)>) -> (r: Result<bool, String>)
    ensures
        flag_result(r) == types_agree(found@, expected@, text_table(ids@)),
{
    let n = found.unicode_len();
    if n != 2 && n != 4 && n != 36 {
        return Err(cat2("Unknown partition type found: ", found));
    }
    let n = expected.unicode_len();
    if n != 2 && n != 4 && n != 36 {
        return Err(cat2("Unknown partition type specified: ", found));
    }
    let f = full_code_of(found);
    let e = full_code_of(expected);
    if f.as_str().unicode_len() == e.as_str().unicode_len() {
        return Ok(same(f.as_str(), e.as_str()));
    }
    let fg = match guid_for(ids, f.as_str()) {
        Some(g) => g,
        None => return Err(cat2("Cannot find GPT GUID for found type ", f.as_str())),
    };
    let eg = match guid_for(ids, e.as_str()) {
        Some(g) => g,
        None => return Err(cat2("Cannot find GPT GUID for expected type ", fg.as_str())),
    };
    Ok(same(fg.as_str(), eg.as_str()))
}

/// Whether two partition types are the same type, in whatever case.
pub fn partition_type_matches(found_type: &str, expected_type: &str, ids: &Vec<(String, String)>) -> (r: Result<
    bool,
    String,
>)
    ensures
        flag_result(r) == types_agree(uppercase(found_type@), uppercase(expected_type@), text_table(ids@)),
{
    upper_types_match(to_upper(found_type).as_str(), to_upper(expected_type).as_str(), ids)
}

/// The types that a layout asks for: an entry that is a list has it second, any
/// other entry asks for none.
pub open spec fn wanted_types(items: Seq<Val>) -> Result<Seq<Option<Seq<char>>>, Seq<char>>
    decreases items.len(),
{
    if items.len() == 0 {
        Ok(Seq::empty())
    } else {
        match items[0] {
            Val::Array(pair) => if pair.len() > 1 {
                prepend(seq![Some(show(pair[1]))], wanted_types(items.skip(1)))
            } else {
                Err("list index out of range"@)
            },
            _ => prepend(seq![None], wanted_types(items.skip(1))),
        }
    }
}

fn wanted_types_of(items: &Vec<Node>) -> (r: Result<Vec<Option<String>>, String>)
    ensures
        types_result(r) == wanted_types(vals(items@)),
{
    let ghost all = vals(items@);
    let mut out: Vec<Option<String>> = Vec::new();
    let mut i: usize = 0;
    proof {
        assert(all.skip(0) =~= all);
        assert(opt_texts(out@) =~= Seq::empty());
        prepend_empty(wanted_types(all));
    }
    while i < items.len()
        invariant
            i <= items@.len(),
            all == vals(items@),
            prepend(opt_texts(out@), wanted_types(all.skip(i as int))) == wanted_types(all),
        decreases items.len() - i,
    {
        assert(all.skip(i as int)[0] == items@[i as int]@);
        assert(all.skip(i as int).skip(1) =~= all.skip(i + 1));
        let ghost before = opt_texts(out@);
        let kind: Option<String> = match &items[i] {
            Node::Array(pair) => {
                if pair.len() > 1 {
                    assert(vals(pair@)[1] == pair@[1]@);
                    Some(py_str(&pair[1]))
                } else {
                    return Err("list index out of range".to_owned());
                }
            },
            _ => None,
        };
        proof {
            prepend_push(before, opt_text(kind), wanted_types(all.skip(i + 1)));
        }
        out.push(kind);
        assert(opt_texts(out@) =~= before.push(opt_text(kind)));
        i += 1;
    }
    assert(opt_texts(out@) + Seq::<Option<Seq<char>>>::empty() =~= opt_texts(out@));
    Ok(out)
}

/// Whether the types found are those asked for, place by place; a place that asks
/// for none takes any. The first place that fails decides.
pub open spec fn all_agree(
    wanted: Seq<Option<Seq<char>>>,
    found: Seq<Option<Seq<char>>>,
    ids: Seq<(Seq<char>, Seq<char>)>,
) -> Result<bool, Seq<char>>
    decreases wanted.len(),
{
    if wanted.len() == 0 || found.len() == 0 {
        Ok(true)
    } else {
        match wanted[0] {
            None => all_agree(wanted.skip(1), found.skip(1), ids),
            Some(kind) => {
                let there = match found[0] {
                    Some(text) => text,
                    None => "None"@,
                };
                match types_agree(uppercase(kind), uppercase(there), ids) {
                    Err(e) => Err(e),
                    Ok(agree) => if agree {
                        all_agree(wanted.skip(1), found.skip(1), ids)
                    } else {
                        Ok(false)
                    },
                }
            },
        }
    }
}

fn all_match(wanted: &Vec<Option<String>>, found: &Vec<Option<String>>, ids: &Vec<(String, String)>) -> (r: Result<
    bool,
    String,
>)
    ensures
        flag_result(r) == all_agree(opt_texts(wanted@), opt_texts(found@), text_table(ids@)),
{
    let ghost w = opt_texts(wanted@);
    let ghost f = opt_texts(found@);
    let mut i: usize = 0;
    assert(w.skip(0) =~= w);
    assert(f.skip(0) =~= f);
    while i < wanted.len() && i < found.len()
        invariant
            i <= wanted@.len(),
            i <= found@.len(),
            w == opt_texts(wanted@),
            f == opt_texts(found@),
            all_agree(w.skip(i as int), f.skip(i as int), text_table(ids@)) == all_agree(w, f, text_table(ids@)),
        decreases wanted.len() - i,
    {
        assert(w.skip(i as int)[0] == opt_text(wanted@[i as int]));
        assert(f.skip(i as int)[0] == opt_text(found@[i as int]));
        assert(w.skip(i as int).skip(1) =~= w.skip(i + 1));
        assert(f.skip(i as int).skip(1) =~= f.skip(i + 1));
        if let Some(kind) = &wanted[i] {
            let there = match &found[i] {
                Some(text) => text.clone(),
                None => "None".to_owned(),
            };
            match partition_type_matches(kind.as_str(), there.as_str(), ids) {
                Ok(true) => {},
                Ok(false) => return Ok(false),
                Err(e) => return Err(e),
            }
        }
        i += 1;
    }
    Ok(true)
}

/// Whether the types found on a disk are what a layout asks for. A layout that is
/// just switched on is content with any partition.
pub open spec fn layout_fits(layout: Val, found: Seq<Option<Seq<char>>>, ids: Seq<(Seq<char>, Seq<char>)>) -> Result<
    bool,
    Seq<char>,
> {
    match layout {
        Val::Bool(wanted) => Ok(wanted && found.len() > 0),
        _ => match length_of(layout) {
            Err(e) => Err(e),
            Ok(n) => if found.len() != n {
                Ok(false)
            } else {
                match wanted_types(items_of(layout)->Ok_0) {
                    Err(e) => Err(e),
                    Ok(wanted) => all_agree(wanted, found, ids),
                }
            },
        },
    }
}

/// Types as a list is printed.
pub open spec fn types_text(types: Seq<Option<Seq<char>>>) -> Seq<char> {
    "["@ + join(
        Seq::new(
            types.len(),
            |i: int|
                match types[i] {
                    Some(text) => quoted(text),
                    None => "None"@,
                },
        ),
        ", "@,
    ) + "]"@
}

fn show_types(types: &Vec<Option<String>>) -> (r: String)
    ensures
        r@ == types_text(opt_texts(types@)),
{
    broadcast use texts_push;
    let ghost all = opt_texts(types@);
    let ghost want = Seq::new(
        all.len(),
        |i: int|
            match all[i] {
                Some(text) => quoted(text),
                None => "None"@,
            },
    );
    let mut out: Vec<String> = Vec::new();
    let mut i: usize = 0;
    assert(texts(out@) =~= want.take(0));
    while i < types.len()
        invariant
            i <= types@.len(),
            all == opt_texts(types@),
            want == Seq::new(
                all.len(),
                |i: int|
                    match all[i] {
                        Some(text) => quoted(text),
                        None => "None"@,
                    },
            ),
            texts(out@) == want.take(i as int),
        decreases types.len() - i,
    {
        assert(all[i as int] == opt_text(types@[i as int]));
        let shown = match &types[i] {
            Some(text) => repr_str(text.as_str()),
            None => "None".to_owned(),
        };
        out.push(shown);
        i += 1;
        assert(want.take(i as int) =~= want.take(i - 1).push(want[i - 1]));
    }
    assert(want.take(i as int) =~= want);
    cat3("[", join_with(&out, ", ").as_str(), "]")
}

/// What is said of the types before they are held against each other.
pub open spec fn layout_told<H: Host>(m: Disks<H>, layout: Val, found: Seq<Option<Seq<char>>>) -> Disks<H> {
    if layout is Bool || length_of(layout) != Ok::<nat, Seq<char>>(found.len()) {
        m
    } else {
        match wanted_types(items_of(layout)->Ok_0) {
            Err(_) => m,
            Ok(wanted) => logged::<H>(
                m,
                "Layout types="@ + types_text(wanted) + ". Found types="@ + types_text(found),
            ),
        }
    }
}

/// Whether types found on a disk are what a layout asks for.
pub fn layout_matches<H: Host>(layout: &Node, found: &Vec<Option<String>>, ids: &Vec<(String, String)>, host: &mut H) -> (r:
    Result<bool, String>)
    ensures
        final(host).machine() == layout_told::<H>(old(host).machine(), layout@, opt_texts(found@)),
        flag_result(r) == layout_fits(layout@, opt_texts(found@), text_table(ids@)),
{
    if let Node::Bool(wanted) = layout {
        return Ok(*wanted && found.len() > 0);
    }
    match py_len(layout) {
        Err(e) => return Err(e),
        Ok(n) => {
            if found.len() != n {
                return Ok(false);
            }
        },
    }
    match py_iter(layout) {
        Err(e) => Err(e),
        Ok(items) => match wanted_types_of(&items) {
            Err(e) => Err(e),
            Ok(wanted) => {
                log_debug(
                    host,
                    cat4(
                        "Layout types=",
                        show_types(&wanted).as_str(),
                        ". Found types=",
                        show_types(found).as_str(),
                    ).as_str(),
                );
                all_match(&wanted, found, ids)
            },
        },
    }
}

/// Whether a disk has a layout already.
pub open spec fn has_layout<H: Host>(
    m: Disks<H>,
    table_type: Seq<char>,
    device: Seq<char>,
    layout: Val,
    ids: Seq<(Seq<char>, Seq<char>)>,
) -> (Disks<H>, Result<bool, Seq<char>>) {
    if table_type != "gpt"@ && table_type != "mbr"@ {
        (m, Err("Unable to determine table type"@))
    } else {
        let (m1, found) = if table_type == "gpt"@ {
            gpt_layout::<H>(m, device)
        } else {
            mbr_layout::<H>(m, device, layout)
        };
        match found {
            Err(e) => (m1, Err(e)),
            Ok(types) => (
                layout_told::<H>(
                    logged::<H>(
                        m1,
                        "called check_partition_"@ + table_type + "_layout("@ + device + ", "@ + show(layout)
                            + "), returned: "@ + types_text(types),
                    ),
                    layout,
                    types,
                ),
                layout_fits(layout, types, ids),
            ),
        }
    }
}

pub fn check_partition_layout<H: Host>(
    host: &mut H,
    table_type: &str,
    device: &str,
    layout: &Node,
    ids: &Vec<(String, String)>,
) -> (r: Result<bool, String>)
    ensures
        (final(host).machine(), flag_result(r)) == has_layout::<H>(
            old(host).machine(),
            table_type@,
            device@,
            layout@,
            text_table(ids@),
        ),
{
    let found = if same(table_type, "gpt") {
        check_partition_gpt_layout(host, device)
    } else if same(table_type, "mbr") {
        check_partition_mbr_layout(host, device, layout)
    } else {
        return Err("Unable to determine table type".to_owned());
    };
    match found {
        Err(e) => Err(e),
        Ok(types) => {
            let first = cat7(
                "called check_partition_",
                table_type,
                "_layout(",
                device,
                ", ",
                py_str(layout).as_str(),
                "), returned: ",
            );
            log_debug(host, cat2(first.as_str(), show_types(&types).as_str()).as_str());
            layout_matches(layout, &types, ids, host)
        },
    }
}

// ---------------------------------------------------------------------------
// Making a layout

/// The percentage and the type of one entry of a layout.
pub open spec fn part_of(entry: Val, kind: Val) -> Result<(Val, Val), Seq<char>> {
    match entry {
        Val::Array(pair) => if pair.len() == 2 {
            Ok((pair[0], pair[1]))
        } else {
            Err("Partition was incorrectly defined: "@ + repr(entry))
        },
        _ => Ok((entry, kind)),
    }
}

fn part_from(entry: &Node, kind: &Node) -> (r: Result<(Node, Node), String>)
    ensures
        match r {
            Ok(p) => part_of(entry@, kind@) == Ok::<(Val, Val), Seq<char>>((p.0@, p.1@)),
            Err(e) => part_of(entry@, kind@) == Err::<(Val, Val), Seq<char>>(e@),
        },
{
    match entry {
        Node::Array(pair) => if pair.len() == 2 {
            assert(vals(pair@)[0] == pair@[0]@ && vals(pair@)[1] == pair@[1]@);
            Ok((pair[0].clone(), pair[1].clone()))
        } else {
            Err(cat2("Partition was incorrectly defined: ", repr_of(entry).as_str()))
        },
        _ => Ok((entry.clone(), kind.clone())),
    }
}

/// A percentage as text.
pub open spec fn percent_text(percent: Val) -> Result<Seq<char>, Seq<char>> {
    match percent {
        Val::Int(n) => Ok(dec_int(n)),
        Val::Float(s) => Ok(s),
        Val::Bool(b) => Ok(if b {
            "1"@
        } else {
            "0"@
        }),
        Val::Text(s) => Ok(trim(Class::Space, s)),
        _ => Err("float() argument must be a string or a real number, not '"@ + kind_text(percent) + "'"@),
    }
}

/// The sectors of a partition that is to have a percentage of a disk.
pub open spec fn part_sectors<H: Host>(m: Disks<H>, size: (int, int), percent: Val) -> (Disks<H>, Result<int, Seq<char>>) {
    match percent_text(percent) {
        Err(e) => (m, Err(e)),
        Ok(text) => {
            let call = Call::Share { bytes: size.0, sector: size.1, percent: text };
            let (w, a) = H::reply(m.world, call);
            (
                asked(m, call, w),
                match (a->MaybeNumber_0, percent) {
                    (Some(n), _) => Ok(n),
                    (None, Val::Text(s)) => Err("could not convert string to float: "@ + quoted(s)),
                    (None, _) => Err("float"@),
                },
            )
        },
    }
}

fn part_sectors_of<H: Host>(host: &mut H, size: (i64, i64), percent: &Node) -> (r: Result<i64, String>)
    ensures
        final(host).machine() == part_sectors::<H>(
            old(host).machine(),
            (size.0 as int, size.1 as int),
            percent@,
        ).0,
        match r {
            Ok(n) => part_sectors::<H>(old(host).machine(), (size.0 as int, size.1 as int), percent@).1 == Ok::<
                int,
                Seq<char>,
            >(n as int),
            Err(e) => part_sectors::<H>(old(host).machine(), (size.0 as int, size.1 as int), percent@).1 == Err::<
                int,
                Seq<char>,
            >(e@),
        },
{
    let text = match percent {
        Node::Int(n) => dec_int_of(*n),
        Node::Float(s) => s.clone(),
        Node::Bool(b) => if *b {
            "1".to_owned()
        } else {
            "0".to_owned()
        },
        Node::Text(s) => trim_of(Class::Space, s.as_str()),
        _ => {
            return Err(
                cat3("float() argument must be a string or a real number, not '", kind_name(percent).as_str(), "'"),
            );
        },
    };
    match host.share(size.0, size.1, text.as_str()) {
        Some(n) => Ok(n),
        None => match percent {
            Node::Text(s) => Err(cat2("could not convert string to float: ", repr_str(s.as_str()).as_str())),
            _ => Err("float".to_owned()),
        },
    }
}

/// The lines of an `sfdisk` script; the last partition takes what is left.
pub open spec fn mbr_lines<H: Host>(m: Disks<H>, items: Seq<Val>, size: (int, int)) -> (
    Disks<H>,
    Result<Seq<Seq<char>>, Seq<char>>,
)
    decreases items.len(),
{
    if items.len() == 0 {
        (m, Ok(Seq::empty()))
    } else {
        match part_of(items[0], Val::Int(83)) {
            Err(e) => (m, Err(e)),
            Ok((percent, kind)) => {
                let (m1, sectors) = part_sectors::<H>(m, size, percent);
                match sectors {
                    Err(e) => (m1, Err(e)),
                    Ok(n) => {
                        let line = if items.len() == 1 {
                            ",,"@ + show(kind)
                        } else {
                            ","@ + dec_int(n) + ","@ + show(kind)
                        };
                        let (m2, rest) = mbr_lines::<H>(m1, items.skip(1), size);
                        (m2, prepend(seq![line], rest))
                    },
                }
            },
        }
    }
}

/// The `sfdisk` script for a layout.
pub open spec fn mbr_script<H: Host>(m: Disks<H>, size: (int, int), layout: Val) -> (Disks<H>, Result<Seq<char>, Seq<char>>) {
    match layout {
        Val::Bool(_) => (m, Ok(",,83"@)),
        Val::Array(items) => if items.len() == 0 {
            (m, Err("Partition layout is invalid"@))
        } else if items.len() > 4 {
            (m, Err("Only simply partitioning is allowed."@))
        } else {
            let (m1, lines) = mbr_lines::<H>(m, items, size);
            (
                m1,
                match lines {
                    Ok(lines) => Ok(join(lines, "\n"@)),
                    Err(e) => Err(e),
                },
            )
        },
        _ => (m, Err("Partition layout is invalid"@)),
    }
}

pub open spec fn text_result(r: Result<String, String>) -> Result<Seq<char>, Seq<char>> {
    match r {
        Ok(s) => Ok(s@),
        Err(e) => Err(e@),
    }
}

pub fn get_partition_mbr_layout<H: Host>(host: &mut H, size: (i64, i64), layout: &Node) -> (r: Result<String, String>)
    ensures
        (final(host).machine(), text_result(r)) == mbr_script::<H>(
            old(host).machine(),
            (size.0 as int, size.1 as int),
            layout@,
        ),
{
    broadcast use texts_push;
    let items = match layout {
        Node::Bool(_) => return Ok(",,83".to_owned()),
        Node::Array(items) => items,
        _ => return Err("Partition layout is invalid".to_owned()),
    };
    if items.len() == 0 {
        return Err("Partition layout is invalid".to_owned());
    }
    if items.len() > 4 {
        return Err("Only simply partitioning is allowed.".to_owned());
    }
    let ghost all = vals(items@);
    let ghost m0 = host.machine();
    let ghost sz = (size.0 as int, size.1 as int);
    let mut lines: Vec<String> = Vec::new();
    let mut i: usize = 0;
    proof {
        assert(all.skip(0) =~= all);
        assert(texts(lines@) =~= Seq::empty());
        prepend_empty(mbr_lines::<H>(m0, all, sz).1);
    }
    while i < items.len()
        invariant
            i <= items@.len(),
            0 < items@.len() <= 4,
            all == vals(items@),
            layout@ == Val::Array(all),
            m0 == old(host).machine(),
            sz == (size.0 as int, size.1 as int),
            mbr_lines::<H>(m0, all, sz) == (
                mbr_lines::<H>(host.machine(), all.skip(i as int), sz).0,
                prepend(texts(lines@), mbr_lines::<H>(host.machine(), all.skip(i as int), sz).1),
            ),
        decreases items.len() - i,
    {
        assert(all.skip(i as int)[0] == items@[i as int]@);
        assert(all.skip(i as int).skip(1) =~= all.skip(i + 1));
        let part = match part_from(&items[i], &Node::Int(83)) {
            Ok(part) => part,
            Err(e) => return Err(e),
        };
        let sectors = match part_sectors_of(host, size, &part.0) {
            Ok(n) => n,
            Err(e) => return Err(e),
        };
        let kind = py_str(&part.1);
        let line = if i + 1 == items.len() {
            cat2(",,", kind.as_str())
        } else {
            cat4(",", dec_int_of(sectors as i128).as_str(), ",", kind.as_str())
        };
        proof {
            prepend_push(texts(lines@), line@, mbr_lines::<H>(host.machine(), all.skip(i + 1), sz).1);
            assert(texts(lines@.push(line)) =~= texts(lines@).push(line@));
        }
        lines.push(line);
        i += 1;
    }
    assert(texts(lines@) + Seq::<Seq<char>>::empty() =~= texts(lines@));
    Ok(join_with(&lines, "\n"))
}

/// One partition to be made: its type, and where it starts and ends.
#[derive(Debug, PartialEq)]
pub struct Part {
    pub kind: Node,
    pub start: String,
    pub end: String,
}

/// The mathematical form of a [`Part`].
pub struct PartSpec {
    pub kind: Val,
    pub start: Seq<char>,
    pub end: Seq<char>,
}

impl View for Part {
    type V = PartSpec;

    open spec fn view(&self) -> PartSpec {
        PartSpec { kind: self.kind@, start: self.start@, end: self.end@ }
    }
}

pub open spec fn parts(v: Seq<Part>) -> Seq<PartSpec> {
    Seq::new(v.len(), |i: int| v[i]@)
}

/// The partitions for the entries of a layout; the last takes what is left.
pub open spec fn gpt_parts<H: Host>(m: Disks<H>, items: Seq<Val>, size: (int, int)) -> (
    Disks<H>,
    Result<Seq<PartSpec>, Seq<char>>,
)
    decreases items.len(),
{
    if items.len() == 0 {
        (m, Ok(Seq::empty()))
    } else {
        match part_of(items[0], Val::Null) {
            Err(e) => (m, Err(e)),
            Ok((percent, kind)) => {
                let (m1, sectors) = part_sectors::<H>(m, size, percent);
                match sectors {
                    Err(e) => (m1, Err(e)),
                    Ok(n) => {
                        let part = PartSpec {
                            kind,
                            start: "0"@,
                            end: if items.len() == 1 {
                                "0"@
                            } else {
                                "+"@ + dec_int(n)
                            },
                        };
                        let (m2, rest) = gpt_parts::<H>(m1, items.skip(1), size);
                        (m2, prepend(seq![part], rest))
                    },
                }
            },
        }
    }
}

/// The partitions that a layout asks for.
pub open spec fn gpt_plan<H: Host>(m: Disks<H>, size: (int, int), layout: Val) -> (
    Disks<H>,
    Result<Seq<PartSpec>, Seq<char>>,
) {
    match layout {
        Val::Bool(_) => (m, Ok(seq![PartSpec { kind: Val::Null, start: "0"@, end: "0"@ }])),
        _ => match items_of(layout) {
            Err(e) => (m, Err(e)),
            Ok(items) => if items.len() == 0 {
                (m, Err("list index out of range"@))
            } else {
                gpt_parts::<H>(m, items, size)
            },
        },
    }
}

pub open spec fn parts_result(r: Result<Vec<Part>, String>) -> Result<Seq<PartSpec>, Seq<char>> {
    match r {
        Ok(v) => Ok(parts(v@)),
        Err(e) => Err(e@),
    }
}

pub fn get_partition_gpt_layout<H: Host>(host: &mut H, size: (i64, i64), layout: &Node) -> (r: Result<Vec<Part>, String>)
    ensures
        (final(host).machine(), parts_result(r)) == gpt_plan::<H>(
            old(host).machine(),
            (size.0 as int, size.1 as int),
            layout@,
        ),
{
    let mut out: Vec<Part> = Vec::new();
    if let Node::Bool(_) = layout {
        out.push(Part { kind: Node::Null, start: "0".to_owned(), end: "0".to_owned() });
        assert(parts(out@) =~= seq![PartSpec { kind: Val::Null, start: "0"@, end: "0"@ }]);
        return Ok(out);
    }
    let items = match py_iter(layout) {
        Ok(items) => items,
        Err(e) => return Err(e),
    };
    if items.len() == 0 {
        return Err("list index out of range".to_owned());
    }
    let ghost all = vals(items@);
    let ghost m0 = host.machine();
    let ghost sz = (size.0 as int, size.1 as int);
    let mut i: usize = 0;
    proof {
        assert(all.skip(0) =~= all);
        assert(parts(out@) =~= Seq::empty());
        prepend_empty(gpt_parts::<H>(m0, all, sz).1);
    }
    while i < items.len()
        invariant
            i <= items@.len(),
            0 < items@.len(),
            all == vals(items@),
            m0 == old(host).machine(),
            sz == (size.0 as int, size.1 as int),
            gpt_plan::<H>(m0, sz, layout@) == gpt_parts::<H>(m0, all, sz),
            gpt_parts::<H>(m0, all, sz) == (
                gpt_parts::<H>(host.machine(), all.skip(i as int), sz).0,
                prepend(parts(out@), gpt_parts::<H>(host.machine(), all.skip(i as int), sz).1),
            ),
        decreases items.len() - i,
    {
        assert(all.skip(i as int)[0] == items@[i as int]@);
        assert(all.skip(i as int).skip(1) =~= all.skip(i + 1));
        let part = match part_from(&items[i], &Node::Null) {
            Ok(part) => part,
            Err(e) => return Err(e),
        };
        let sectors = match part_sectors_of(host, size, &part.0) {
            Ok(n) => n,
            Err(e) => return Err(e),
        };
        let end = if i + 1 == items.len() {
            "0".to_owned()
        } else {
            cat2("+", dec_int_of(sectors as i128).as_str())
        };
        let made = Part { kind: part.1, start: "0".to_owned(), end };
        proof {
            prepend_push(parts(out@), made@, gpt_parts::<H>(host.machine(), all.skip(i + 1), sz).1);
            assert(parts(out@.push(made)) =~= parts(out@).push(made@));
        }
        out.push(made);
        i += 1;
    }
    assert(parts(out@) + Seq::<PartSpec>::empty() =~= parts(out@));
    Ok(out)
}

// ---------------------------------------------------------------------------
// Laws

/// A type agrees with itself.
pub proof fn a_type_agrees_with_itself(kind: Seq<char>, ids: Seq<(Seq<char>, Seq<char>)>)
    requires
        known_length(kind),
    ensures
        types_agree(kind, kind, ids) == Ok::<bool, Seq<char>>(true),
{
}

/// Which of two types was found and which was wanted does not matter to whether they
/// agree.
pub proof fn agreement_goes_both_ways(a: Seq<char>, b: Seq<char>, ids: Seq<(Seq<char>, Seq<char>)>)
    requires
        types_agree(a, b, ids) is Ok,
    ensures
        types_agree(b, a, ids) == types_agree(a, b, ids),
{
}

/// A two-digit type and the four-character code it is short for are the same type.
pub proof fn short_types_are_codes(kind: Seq<char>, ids: Seq<(Seq<char>, Seq<char>)>)
    requires
        kind.len() == 2,
    ensures
        types_agree(kind, kind + "00"@, ids) == Ok::<bool, Seq<char>>(true),
{
    reveal_strlit("00");
}

}
