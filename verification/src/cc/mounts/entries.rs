//! The entries of the file system table.

use vstd::prelude::*;

use crate::cc::mounts::devices::{
    is_wanted, push_step, resolved, sanitize_devname, sanitized_devname_is_valid, step_specs, with_line, Fstab,
    FstabSpec,
};
use crate::cc::mounts::host::{Host, Step, StepSpec, Table};
use crate::machine::text_table;
use crate::number::{dec, dec_of};
use crate::show::{kind_name, kind_text, py_str, repr, repr_of, show};
use crate::text::{
    cat2, cat3, cat5, has_is_somewhere, has_text, join, join_with, replace, replaced, same, stands_at, starts,
    starts_with, texts,
};
use crate::value::{copy_values, equal, vals, vals_push, Node, Object, Val};
use crate::walk::{items_of, py_iter};

verus! {

/// Entries, each a row of values.
pub open spec fn rows(v: Seq<Vec<Node>>) -> Seq<Seq<Val>> {
    Seq::new(v.len(), |i: int| vals(v[i]@))
}

pub open spec fn row_result(r: Result<Vec<Node>, String>) -> Result<Seq<Val>, Seq<char>> {
    match r {
        Ok(v) => Ok(vals(v@)),
        Err(e) => Err(e@),
    }
}

pub open spec fn rows_result(r: Result<Vec<Vec<Node>>, String>) -> Result<Seq<Seq<Val>>, Seq<char>> {
    match r {
        Ok(v) => Ok(rows(v@)),
        Err(e) => Err(e@),
    }
}

fn push_row(list: &mut Vec<Vec<Node>>, row: Vec<Node>)
    ensures
        rows(final(list)@) == rows(old(list)@).push(vals(row@)),
{
    let ghost before = rows(list@);
    let ghost x = vals(row@);
    list.push(row);
    assert(rows(list@) =~= before.push(x));
}

// ---------------------------------------------------------------------------
// Reading the configuration

/// Whether a field that stands for nothing has no default.
pub open spec fn lacks_default(row: Seq<Val>, defaults: Seq<Val>) -> bool {
    exists|i: int| defaults.len() <= i < row.len() && #[trigger] row[i] is Null
}

/// A row with its fields as they are printed, and the defaults for those that
/// stand for nothing and for those behind the last.
pub open spec fn filled(row: Seq<Val>, defaults: Seq<Val>) -> Result<Seq<Val>, Seq<char>> {
    if lacks_default(row, defaults) {
        Err("list index out of range"@)
    } else {
        let named = Seq::new(
            row.len(),
            |i: int|
                if row[i] is Null {
                    defaults[i]
                } else {
                    Val::Text(show(row[i]))
                },
        );
        Ok(
            if row.len() <= defaults.len() {
                named + defaults.skip(row.len() as int)
            } else {
                named
            },
        )
    }
}

fn fill(row: &Vec<Node>, defaults: &Vec<Node>) -> (r: Result<Vec<Node>, String>)
    ensures
        row_result(r) == filled(vals(row@), vals(defaults@)),
{
    broadcast use vals_push;
    let ghost all = vals(row@);
    let ghost usual = vals(defaults@);
    let ghost named = Seq::new(
        all.len(),
        |i: int|
            if all[i] is Null {
                usual[i]
            } else {
                Val::Text(show(all[i]))
            },
    );
    let mut out: Vec<Node> = Vec::new();
    let mut i: usize = 0;
    assert(vals(out@) =~= named.take(0));
    while i < row.len()
        invariant
            i <= row@.len(),
            all == vals(row@),
            usual == vals(defaults@),
            named == Seq::new(
                all.len(),
                |i: int|
                    if all[i] is Null {
                        usual[i]
                    } else {
                        Val::Text(show(all[i]))
                    },
            ),
            vals(out@) == named.take(i as int),
            forall|j: int| usual.len() <= j < i ==> !(#[trigger] all[j] is Null),
        decreases row.len() - i,
    {
        assert(all[i as int] == row@[i as int]@);
        let ghost before = vals(out@);
        if row[i].is_null() {
            if i >= defaults.len() {
                assert(lacks_default(all, usual));
                return Err("list index out of range".to_owned());
            }
            assert(usual[i as int] == defaults@[i as int]@);
            out.push(defaults[i].clone());
        } else {
            out.push(Node::Text(py_str(&row[i])));
        }
        assert(vals(out@) =~= before.push(named[i as int]));
        i += 1;
        assert(named.take(i as int) =~= named.take(i - 1).push(named[i - 1]));
    }
    assert(named.take(i as int) =~= named);
    let ghost first = vals(out@);
    let mut k: usize = row.len();
    if k <= defaults.len() {
        assert(usual.subrange(k as int, k as int) =~= Seq::empty());
        assert(vals(out@) =~= first + usual.subrange(k as int, k as int));
        while k < defaults.len()
            invariant
                row@.len() <= k <= defaults@.len(),
                usual == vals(defaults@),
                vals(out@) == first + usual.subrange(row@.len() as int, k as int),
            decreases defaults.len() - k,
        {
            assert(usual[k as int] == defaults@[k as int]@);
            let ghost before = vals(out@);
            out.push(defaults[k].clone());
            assert(vals(out@) =~= before.push(usual[k as int]));
            k += 1;
            assert(vals(out@) =~= first + usual.subrange(row@.len() as int, k as int));
        }
        assert(usual.subrange(row@.len() as int, k as int) =~= usual.skip(row@.len() as int));
    }
    Ok(out)
}

/// The row for an entry of the configuration: with its device's name, where the
/// device is to be written, and its fields filled.
pub open spec fn row_for<H: Host>(
    m: Table<H>,
    items: Seq<Val>,
    devs: Seq<(Seq<char>, Val)>,
    devices: Seq<(Seq<char>, Seq<char>)>,
    aliases: Seq<(Seq<char>, Val)>,
    defaults: Seq<Val>,
    steps: Seq<StepSpec>,
) -> (Table<H>, Seq<StepSpec>, Result<Seq<Val>, Seq<char>>) {
    if items.len() == 0 {
        (m, steps, Err("list index out of range"@))
    } else {
        let start = show(items[0]);
        let (m1, s1, device) = resolved::<H>(m, start, devices, aliases, steps);
        let (s2, wanted) = is_wanted(start, device, devs, s1);
        let row = if wanted {
            seq![Val::Text(device->0)] + items.skip(1)
        } else {
            items
        };
        (m1, s2, filled(row, defaults))
    }
}

fn read_entry<H: Host>(
    items: &Vec<Node>,
    fstab_devs: &Object,
    devices: &Vec<(String, String)>,
    aliases: &Object,
    default_fields: &Vec<Node>,
    steps: &mut Vec<Step>,
    host: &mut H,
) -> (r: Result<Vec<Node>, String>)
    ensures
        (final(host).machine(), step_specs(final(steps)@), row_result(r)) == row_for::<H>(
            old(host).machine(),
            vals(items@),
            fstab_devs@,
            text_table(devices@),
            aliases@,
            vals(default_fields@),
            step_specs(old(steps)@),
        ),
{
    if items.len() == 0 {
        return Err("list index out of range".to_owned());
    }
    let ghost all = vals(items@);
    assert(all[0] == items@[0]@);
    let start = py_str(&items[0]);
    let device = sanitize_devname(start.as_str(), devices, aliases, steps, host);
    let named = match &device {
        Some(d) => Some(d.as_str()),
        None => None,
    };
    let wanted = sanitized_devname_is_valid(start.as_str(), named, fstab_devs, steps);
    if !wanted {
        return fill(items, default_fields);
    }
    let name = match device {
        Some(d) => d,
        None => String::new(),
    };
    let ghost first = Val::Text(name@);
    let mut row: Vec<Node> = Vec::new();
    row.push(Node::Text(name));
    assert(vals(row@) =~= seq![first] + all.subrange(1, 1));
    let mut i: usize = 1;
    while i < items.len()
        invariant
            1 <= i <= items@.len(),
            all == vals(items@),
            vals(row@) == seq![first] + all.subrange(1, i as int),
        decreases items.len() - i,
    {
        assert(all[i as int] == items@[i as int]@);
        let ghost before = vals(row@);
        row.push(items[i].clone());
        assert(vals(row@) =~= before.push(all[i as int]));
        i += 1;
        assert(vals(row@) =~= seq![first] + all.subrange(1, i as int));
    }
    assert(all.subrange(1, i as int) =~= all.skip(1));
    fill(&row, default_fields)
}

/// The rows for entries of the configuration, behind others. What is no list is
/// warned of and skipped.
pub open spec fn rows_for<H: Host>(
    m: Table<H>,
    entries: Seq<Val>,
    devs: Seq<(Seq<char>, Val)>,
    devices: Seq<(Seq<char>, Seq<char>)>,
    aliases: Seq<(Seq<char>, Val)>,
    defaults: Seq<Val>,
    steps: Seq<StepSpec>,
    out: Seq<Seq<Val>>,
) -> (Table<H>, Seq<StepSpec>, Result<Seq<Seq<Val>>, Seq<char>>)
    decreases entries.len(),
{
    if entries.len() == 0 {
        (m, steps, Ok(out))
    } else {
        match entries[0] {
            Val::Array(items) => {
                let (m1, s1, row) = row_for::<H>(m, items, devs, devices, aliases, defaults, steps);
                match row {
                    Err(e) => (m1, s1, Err(e)),
                    Ok(row) => rows_for::<H>(m1, entries.skip(1), devs, devices, aliases, defaults, s1, out.push(row)),
                }
            },
            other => rows_for::<H>(
                m,
                entries.skip(1),
                devs,
                devices,
                aliases,
                defaults,
                steps.push(StepSpec::Warning("Mount option not a list, ignoring: "@ + show(other))),
                out,
            ),
        }
    }
}

/// The rows for the entries of the configuration.
pub open spec fn configured_rows<H: Host>(
    m: Table<H>,
    mounts: Val,
    devs: Seq<(Seq<char>, Val)>,
    devices: Seq<(Seq<char>, Seq<char>)>,
    aliases: Seq<(Seq<char>, Val)>,
    defaults: Seq<Val>,
    steps: Seq<StepSpec>,
) -> (Table<H>, Seq<StepSpec>, Result<Seq<Seq<Val>>, Seq<char>>) {
    match items_of(mounts) {
        Err(e) => (m, steps, Err(e)),
        Ok(entries) => rows_for::<H>(m, entries, devs, devices, aliases, defaults, steps, Seq::empty()),
    }
}

pub fn sanitize_mounts_configuration<H: Host>(
    mounts: &Node,
    fstab_devs: &Object,
    devices: &Vec<(String, String)>,
    aliases: &Object,
    default_fields: &Vec<Node>,
    steps: &mut Vec<Step>,
    host: &mut H,
) -> (r: Result<Vec<Vec<Node>>, String>)
    ensures
        (final(host).machine(), step_specs(final(steps)@), rows_result(r)) == configured_rows::<H>(
            old(host).machine(),
            mounts@,
            fstab_devs@,
            text_table(devices@),
            aliases@,
            vals(default_fields@),
            step_specs(old(steps)@),
        ),
{
    let entries = match py_iter(mounts) {
        Ok(entries) => entries,
        Err(e) => return Err(e),
    };
    let ghost all = vals(entries@);
    let ghost defaults = vals(default_fields@);
    let ghost whole = configured_rows::<H>(
        host.machine(),
        mounts@,
        fstab_devs@,
        text_table(devices@),
        aliases@,
        defaults,
        step_specs(steps@),
    );
    let mut out: Vec<Vec<Node>> = Vec::new();
    let mut i: usize = 0;
    assert(all.skip(0) =~= all);
    assert(rows(out@) =~= Seq::empty());
    while i < entries.len()
        invariant
            i <= entries@.len(),
            all == vals(entries@),
            defaults == vals(default_fields@),
            whole == configured_rows::<H>(
                old(host).machine(),
                mounts@,
                fstab_devs@,
                text_table(devices@),
                aliases@,
                defaults,
                step_specs(old(steps)@),
            ),
            rows_for::<H>(
                host.machine(),
                all.skip(i as int),
                fstab_devs@,
                text_table(devices@),
                aliases@,
                defaults,
                step_specs(steps@),
                rows(out@),
            ) == whole,
        decreases entries.len() - i,
    {
        assert(all.skip(i as int)[0] == entries@[i as int]@);
        assert(all.skip(i as int).skip(1) =~= all.skip(i + 1));
        match &entries[i] {
            Node::Array(items) => {
                match read_entry(items, fstab_devs, devices, aliases, default_fields, steps, host) {
                    Ok(row) => push_row(&mut out, row),
                    Err(e) => return Err(e),
                }
            },
            other => {
                push_step(
                    steps,
                    Step::Warning(cat2("Mount option not a list, ignoring: ", py_str(other).as_str())),
                );
            },
        }
        i += 1;
    }
    Ok(out)
}

// ---------------------------------------------------------------------------
// Entries that go by default

/// Whether a row is for a device.
pub open spec fn is_row_of(row: Seq<Val>, device: Seq<char>) -> bool {
    row.len() > 0 && row[0] == Val::Text(device)
}

/// Whether any row is for a device.
pub open spec fn any_row_of(mounts: Seq<Seq<Val>>, device: Seq<char>) -> bool {
    exists|i: int| 0 <= i < mounts.len() && is_row_of(#[trigger] mounts[i], device)
}

fn has_row_of(mounts: &Vec<Vec<Node>>, device: &str) -> (r: bool)
    ensures
        r == any_row_of(rows(mounts@), device@),
{
    let ghost all = rows(mounts@);
    let mut i: usize = 0;
    while i < mounts.len()
        invariant
            i <= mounts@.len(),
            all == rows(mounts@),
            forall|j: int| 0 <= j < i ==> !is_row_of(#[trigger] all[j], device@),
        decreases mounts.len() - i,
    {
        let row = &mounts[i];
        assert(all[i as int] == vals(row@));
        if row.len() > 0 {
            assert(vals(row@)[0] == row@[0]@);
            if let Node::Text(s) = &row[0] {
                if same(s.as_str(), device) {
                    assert(is_row_of(all[i as int], device@));
                    return true;
                }
            }
        }
        i += 1;
    }
    false
}

/// Rows with one more for a default, where its device is to be written and no
/// configured row is for it.
pub open spec fn with_default<H: Host>(
    m: Table<H>,
    mounts: Seq<Seq<Val>>,
    start: Seq<char>,
    rest: Seq<Val>,
    devs: Seq<(Seq<char>, Val)>,
    devices: Seq<(Seq<char>, Seq<char>)>,
    aliases: Seq<(Seq<char>, Val)>,
    steps: Seq<StepSpec>,
    out: Seq<Seq<Val>>,
) -> (Table<H>, Seq<StepSpec>, Seq<Seq<Val>>) {
    let (m1, s1, device) = resolved::<H>(m, start, devices, aliases, steps);
    let (s2, wanted) = is_wanted(start, device, devs, s1);
    if !wanted {
        (m1, s2, out)
    } else if any_row_of(mounts, device->0) {
        (m1, s2.push(StepSpec::Debug("Not including "@ + start + ", already previously included"@)), out)
    } else {
        (m1, s2, out.push(seq![Val::Text(device->0)] + rest))
    }
}

/// The fields of the default for the first ephemeral disk, behind its name.
pub open spec fn ephemeral_fields(options: Seq<char>) -> Seq<Val> {
    seq![
        Val::Text("/mnt"@),
        Val::Text("auto"@),
        Val::Text(options),
        Val::Text("0"@),
        Val::Text("2"@),
    ]
}

/// The fields of an entry for swap, behind its name.
pub open spec fn swap_fields() -> Seq<Val> {
    seq![
        Val::Text("none"@),
        Val::Text("swap"@),
        Val::Text("sw"@),
        Val::Text("0"@),
        Val::Text("0"@),
    ]
}

/// Rows with those for the defaults.
pub open spec fn with_defaults<H: Host>(
    m: Table<H>,
    mounts: Seq<Seq<Val>>,
    options: Seq<char>,
    devs: Seq<(Seq<char>, Val)>,
    devices: Seq<(Seq<char>, Seq<char>)>,
    aliases: Seq<(Seq<char>, Val)>,
    steps: Seq<StepSpec>,
) -> (Table<H>, Seq<StepSpec>, Seq<Seq<Val>>) {
    let (m1, s1, out1) = with_default::<H>(
        m,
        mounts,
        "ephemeral0"@,
        ephemeral_fields(options),
        devs,
        devices,
        aliases,
        steps,
        mounts,
    );
    with_default::<H>(m1, mounts, "swap"@, swap_fields(), devs, devices, aliases, s1, out1)
}

/// A row of a name and five texts.
pub(crate) fn row_of(name: String, a: &str, b: &str, c: &str, d: &str, e: &str) -> (r: Vec<Node>)
    ensures
        vals(r@) == seq![Val::Text(name@)] + seq![
            Val::Text(a@),
            Val::Text(b@),
            Val::Text(c@),
            Val::Text(d@),
            Val::Text(e@),
        ],
{
    let ghost n = name@;
    let mut row: Vec<Node> = Vec::new();
    row.push(Node::Text(name));
    row.push(Node::text(a));
    row.push(Node::text(b));
    row.push(Node::text(c));
    row.push(Node::text(d));
    row.push(Node::text(e));
    assert(vals(row@) =~= seq![Val::Text(n)] + seq![
        Val::Text(a@),
        Val::Text(b@),
        Val::Text(c@),
        Val::Text(d@),
        Val::Text(e@),
    ]);
    row
}

fn default_device<H: Host>(
    mounts: &Vec<Vec<Node>>,
    start: &str,
    fstab_devs: &Object,
    devices: &Vec<(String, String)>,
    aliases: &Object,
    steps: &mut Vec<Step>,
    host: &mut H,
) -> (r: Option<String>)
    ensures
        ({
            let (m1, s1, device) = resolved::<H>(
                old(host).machine(),
                start@,
                text_table(devices@),
                aliases@,
                step_specs(old(steps)@),
            );
            let (s2, wanted) = is_wanted(start@, device, fstab_devs@, s1);
            &&& final(host).machine() == m1
            &&& match r {
                Some(d) => wanted && device == Some(d@) && !any_row_of(rows(mounts@), d@) && step_specs(
                    final(steps)@,
                ) == s2,
                None => if !wanted {
                    step_specs(final(steps)@) == s2
                } else {
                    any_row_of(rows(mounts@), device->0) && step_specs(final(steps)@) == s2.push(
                        StepSpec::Debug("Not including "@ + start@ + ", already previously included"@),
                    )
                },
            }
        }),
{
    let device = sanitize_devname(start, devices, aliases, steps, host);
    let named = match &device {
        Some(d) => Some(d.as_str()),
        None => None,
    };
    if !sanitized_devname_is_valid(start, named, fstab_devs, steps) {
        return None;
    }
    let name = match device {
        Some(d) => d,
        None => return None,
    };
    if has_row_of(mounts, name.as_str()) {
        push_step(steps, Step::Debug(cat3("Not including ", start, ", already previously included")));
        return None;
    }
    Some(name)
}

fn copy_rows(mounts: &Vec<Vec<Node>>) -> (r: Vec<Vec<Node>>)
    ensures
        rows(r@) == rows(mounts@),
{
    let ghost all = rows(mounts@);
    let mut out: Vec<Vec<Node>> = Vec::new();
    let mut i: usize = 0;
    assert(rows(out@) =~= all.take(0));
    while i < mounts.len()
        invariant
            i <= mounts@.len(),
            all == rows(mounts@),
            rows(out@) == all.take(i as int),
        decreases mounts.len() - i,
    {
        assert(all[i as int] == vals(mounts@[i as int]@));
        push_row(&mut out, copy_values(&mounts[i]));
        i += 1;
        assert(all.take(i as int) =~= all.take(i - 1).push(all[i - 1]));
    }
    assert(all.take(i as int) =~= all);
    out
}

pub fn add_default_mounts_to_cfg<H: Host>(
    mounts: &Vec<Vec<Node>>,
    default_mount_options: &str,
    fstab_devs: &Object,
    devices: &Vec<(String, String)>,
    aliases: &Object,
    steps: &mut Vec<Step>,
    host: &mut H,
) -> (r: Vec<Vec<Node>>)
    ensures
        (final(host).machine(), step_specs(final(steps)@), rows(r@)) == with_defaults::<H>(
            old(host).machine(),
            rows(mounts@),
            default_mount_options@,
            fstab_devs@,
            text_table(devices@),
            aliases@,
            step_specs(old(steps)@),
        ),
{
    let mut out = copy_rows(mounts);
    if let Some(name) = default_device(mounts, "ephemeral0", fstab_devs, devices, aliases, steps, host) {
        push_row(&mut out, row_of(name, "/mnt", "auto", default_mount_options, "0", "2"));
    }
    if let Some(name) = default_device(mounts, "swap", fstab_devs, devices, aliases, steps, host) {
        push_row(&mut out, row_of(name, "none", "swap", "sw", "0", "0"));
    }
    out
}

// ---------------------------------------------------------------------------
// Entries that are dropped

/// Whether a value equals one of several.
pub open spec fn any_equal(list: Seq<Val>, v: Val) -> bool {
    exists|i: int| 0 <= i < list.len() && equal(#[trigger] list[i], v)
}

fn has_equal(list: &Vec<Node>, v: &Node) -> (r: bool)
    ensures
        r == any_equal(vals(list@), v@),
{
    let ghost all = vals(list@);
    let mut i: usize = 0;
    while i < list.len()
        invariant
            i <= list@.len(),
            all == vals(list@),
            forall|j: int| 0 <= j < i ==> !equal(#[trigger] all[j], v@),
        decreases list.len() - i,
    {
        assert(all[i as int] == list@[i as int]@);
        if list[i].equals(v) {
            return true;
        }
        i += 1;
    }
    false
}

/// Rows without those that have no mount point, and without the ones before them
/// for the same device.
pub open spec fn rows_kept(mounts: Seq<Seq<Val>>, denied: Seq<Val>, steps: Seq<StepSpec>) -> (
    Seq<StepSpec>,
    Result<Seq<Seq<Val>>, Seq<char>>,
)
    decreases mounts.len(),
{
    if mounts.len() == 0 {
        (steps, Ok(Seq::empty()))
    } else {
        let row = mounts.last();
        if row.len() < 2 {
            (steps, Err("list index out of range"@))
        } else if row[1] is Null || any_equal(denied, row[0]) {
            rows_kept(
                mounts.drop_last(),
                denied.push(row[0]),
                steps.push(StepSpec::Debug("Skipping nonexistent device named "@ + show(row[0]))),
            )
        } else {
            let (s, kept) = rows_kept(mounts.drop_last(), denied, steps);
            (
                s,
                match kept {
                    Ok(kept) => Ok(kept.push(row)),
                    Err(e) => Err(e),
                },
            )
        }
    }
}

pub fn remove_nonexistent_devices(mounts: &Vec<Vec<Node>>, steps: &mut Vec<Step>) -> (r: Result<Vec<Vec<Node>>, String>)
    ensures
        (step_specs(final(steps)@), rows_result(r)) == rows_kept(
            rows(mounts@),
            Seq::empty(),
            step_specs(old(steps)@),
        ),
{
    let denied: Vec<Node> = Vec::new();
    assert(vals(denied@) =~= Seq::empty());
    let n = mounts.len();
    assert(rows(mounts@).take(n as int) =~= rows(mounts@));
    keep_rows(mounts, n, denied, steps)
}

fn keep_rows(mounts: &Vec<Vec<Node>>, n: usize, denied: Vec<Node>, steps: &mut Vec<Step>) -> (r: Result<
    Vec<Vec<Node>>,
    String,
>)
    requires
        n <= mounts@.len(),
    ensures
        (step_specs(final(steps)@), rows_result(r)) == rows_kept(
            rows(mounts@).take(n as int),
            vals(denied@),
            step_specs(old(steps)@),
        ),
    decreases n,
{
    let ghost all = rows(mounts@);
    if n == 0 {
        let none: Vec<Vec<Node>> = Vec::new();
        assert(rows(none@) =~= Seq::empty());
        return Ok(none);
    }
    let row = &mounts[n - 1];
    assert(all.take(n as int).last() == vals(row@));
    assert(all.take(n as int).drop_last() =~= all.take(n - 1));
    if row.len() < 2 {
        return Err("list index out of range".to_owned());
    }
    assert(vals(row@)[0] == row@[0]@ && vals(row@)[1] == row@[1]@);
    if row[1].is_null() || has_equal(&denied, &row[0]) {
        push_step(steps, Step::Debug(cat2("Skipping nonexistent device named ", py_str(&row[0]).as_str())));
        let mut denied = denied;
        let ghost before = vals(denied@);
        denied.push(row[0].clone());
        assert(vals(denied@) =~= before.push(row@[0]@));
        return keep_rows(mounts, n - 1, denied, steps);
    }
    match keep_rows(mounts, n - 1, denied, steps) {
        Ok(mut kept) => {
            push_row(&mut kept, copy_values(row));
            Ok(kept)
        },
        Err(e) => Err(e),
    }
}

// ---------------------------------------------------------------------------
// The mark

/// A row with the mark by which it is known again in its options.
pub open spec fn marked(row: Seq<Val>) -> Result<Seq<Val>, Seq<char>> {
    if row.len() < 4 {
        Err("list index out of range"@)
    } else {
        Ok(row.update(3, Val::Text(show(row[3]) + ",comment=cloudconfig"@)))
    }
}

/// Rows with the mark.
pub open spec fn all_marked(mounts: Seq<Seq<Val>>) -> Result<Seq<Seq<Val>>, Seq<char>>
    decreases mounts.len(),
{
    if mounts.len() == 0 {
        Ok(Seq::empty())
    } else {
        match all_marked(mounts.drop_last()) {
            Err(e) => Err(e),
            Ok(before) => match marked(mounts.last()) {
                Err(e) => Err(e),
                Ok(row) => Ok(before.push(row)),
            },
        }
    }
}

/// Rows among which one cannot be marked cannot be marked.
proof fn unmarkable(mounts: Seq<Seq<Val>>, n: int)
    requires
        0 <= n <= mounts.len(),
        all_marked(mounts.take(n)) is Err,
    ensures
        all_marked(mounts) == all_marked(mounts.take(n)),
    decreases mounts.len() - n,
{
    if n < mounts.len() {
        assert(mounts.take(n + 1).drop_last() =~= mounts.take(n));
        unmarkable(mounts, n + 1);
    } else {
        assert(mounts.take(n) =~= mounts);
    }
}

fn mark(row: &Vec<Node>) -> (r: Result<Vec<Node>, String>)
    ensures
        row_result(r) == marked(vals(row@)),
{
    if row.len() < 4 {
        return Err("list index out of range".to_owned());
    }
    let ghost all = vals(row@);
    assert(all[3] == row@[3]@);
    let mut out = copy_values(row);
    let options = cat2(py_str(&row[3]).as_str(), ",comment=cloudconfig");
    let ghost text = Val::Text(options@);
    out.set(3, Node::Text(options));
    assert(vals(out@) =~= all.update(3, text));
    Ok(out)
}

pub fn add_comment(mounts: &Vec<Vec<Node>>) -> (r: Result<Vec<Vec<Node>>, String>)
    ensures
        rows_result(r) == all_marked(rows(mounts@)),
{
    let ghost all = rows(mounts@);
    let mut out: Vec<Vec<Node>> = Vec::new();
    let mut i: usize = 0;
    assert(all.take(0) =~= Seq::empty());
    assert(rows(out@) =~= Seq::empty());
    while i < mounts.len()
        invariant
            i <= mounts@.len(),
            all == rows(mounts@),
            all_marked(all.take(i as int)) == Ok::<Seq<Seq<Val>>, Seq<char>>(rows(out@)),
        decreases mounts.len() - i,
    {
        assert(all[i as int] == vals(mounts@[i as int]@));
        assert(all.take(i + 1).drop_last() =~= all.take(i as int));
        match mark(&mounts[i]) {
            Ok(row) => push_row(&mut out, row),
            Err(e) => {
                proof {
                    unmarkable(all, i + 1);
                }
                return Err(e);
            },
        }
        i += 1;
    }
    assert(all.take(i as int) =~= all);
    Ok(out)
}

// ---------------------------------------------------------------------------
// All passes

/// The rows that a configuration makes, each with the mark.
pub open spec fn planned_rows<H: Host>(
    m: Table<H>,
    mounts: Val,
    devs: Seq<(Seq<char>, Val)>,
    devices: Seq<(Seq<char>, Seq<char>)>,
    aliases: Seq<(Seq<char>, Val)>,
    defaults: Seq<Val>,
    options: Seq<char>,
    steps: Seq<StepSpec>,
) -> (Table<H>, Seq<StepSpec>, Result<Seq<Seq<Val>>, Seq<char>>) {
    let (m1, s1, read) = configured_rows::<H>(m, mounts, devs, devices, aliases, defaults, steps);
    match read {
        Err(e) => (m1, s1, Err(e)),
        Ok(read) => {
            let (m2, s2, more) = with_defaults::<H>(m1, read, options, devs, devices, aliases, s1);
            let (s3, kept) = rows_kept(more, Seq::empty(), s2);
            (
                m2,
                s3,
                match kept {
                    Err(e) => Err(e),
                    Ok(kept) => all_marked(kept),
                },
            )
        },
    }
}

pub fn plan_mounts<H: Host>(
    mounts: &Node,
    fstab_devs: &Object,
    devices: &Vec<(String, String)>,
    aliases: &Object,
    default_fields: &Vec<Node>,
    default_mount_options: &str,
    steps: &mut Vec<Step>,
    host: &mut H,
) -> (r: Result<Vec<Vec<Node>>, String>)
    ensures
        (final(host).machine(), step_specs(final(steps)@), rows_result(r)) == planned_rows::<H>(
            old(host).machine(),
            mounts@,
            fstab_devs@,
            text_table(devices@),
            aliases@,
            vals(default_fields@),
            default_mount_options@,
            step_specs(old(steps)@),
        ),
{
    let read = match sanitize_mounts_configuration(mounts, fstab_devs, devices, aliases, default_fields, steps, host) {
        Ok(read) => read,
        Err(e) => return Err(e),
    };
    let more = add_default_mounts_to_cfg(&read, default_mount_options, fstab_devs, devices, aliases, steps, host);
    match remove_nonexistent_devices(&more, steps) {
        Ok(kept) => add_comment(&kept),
        Err(e) => Err(e),
    }
}

// ---------------------------------------------------------------------------
// Writing the table

/// A row as a line: its fields, which must all be texts, with tabs between them.
pub open spec fn line_of(row: Seq<Val>, n: int) -> Result<Seq<char>, Seq<char>>
    decreases n,
{
    if n <= 0 {
        Ok(Seq::empty())
    } else {
        match line_of(row, n - 1) {
            Err(e) => Err(e),
            Ok(before) => match row[n - 1] {
                Val::Text(s) => Ok(
                    if n > 1 {
                        before + "\t"@ + s
                    } else {
                        s
                    },
                ),
                other => Err(
                    "sequence item "@ + dec((n - 1) as nat) + ": expected str instance, "@ + kind_text(other)
                        + " found"@,
                ),
            },
        }
    }
}

proof fn no_line(row: Seq<Val>, n: int, whole: int)
    requires
        n <= whole,
        line_of(row, n) is Err,
    ensures
        line_of(row, whole) == line_of(row, n),
    decreases whole - n,
{
    if n < whole {
        no_line(row, n, whole - 1);
    }
}

fn join_tabs(row: &Vec<Node>) -> (r: Result<String, String>)
    ensures
        crate::cc::text_result(r) == line_of(vals(row@), row@.len() as int),
{
    let ghost all = vals(row@);
    let mut out = String::new();
    let mut i: usize = 0;
    assert(out@ =~= Seq::empty());
    while i < row.len()
        invariant
            i <= row@.len(),
            all == vals(row@),
            line_of(all, i as int) == Ok::<Seq<char>, Seq<char>>(out@),
        decreases row.len() - i,
    {
        assert(all[i as int] == row@[i as int]@);
        match &row[i] {
            Node::Text(s) => {
                if i > 0 {
                    out = cat3(out.as_str(), "\t", s.as_str());
                } else {
                    out = s.clone();
                }
            },
            other => {
                let e = cat5(
                    "sequence item ",
                    dec_of(i as u128).as_str(),
                    ": expected str instance, ",
                    kind_name(other).as_str(),
                    " found",
                );
                proof {
                    assert(line_of(all, i + 1) == Err::<Seq<char>, Seq<char>>(e@));
                    no_line(all, i + 1, row@.len() as int);
                }
                return Err(e);
            },
        }
        i += 1;
    }
    Ok(out)
}

/// Rows as lines, behind others.
pub open spec fn lines_of(mounts: Seq<Seq<Val>>, out: Seq<Seq<char>>) -> Result<Seq<Seq<char>>, Seq<char>>
    decreases mounts.len(),
{
    if mounts.len() == 0 {
        Ok(out)
    } else {
        match line_of(mounts[0], mounts[0].len() as int) {
            Err(e) => Err(e),
            Ok(line) => lines_of(mounts.skip(1), out.push(line)),
        }
    }
}

fn lines_for(mounts: &Vec<Vec<Node>>) -> (r: Result<Vec<String>, String>)
    ensures
        crate::cc::texts_result(r) == lines_of(rows(mounts@), Seq::empty()),
{
    let ghost all = rows(mounts@);
    let mut out: Vec<String> = Vec::new();
    let mut i: usize = 0;
    assert(all.skip(0) =~= all);
    assert(texts(out@) =~= Seq::empty());
    while i < mounts.len()
        invariant
            i <= mounts@.len(),
            all == rows(mounts@),
            lines_of(all.skip(i as int), texts(out@)) == lines_of(all, Seq::empty()),
        decreases mounts.len() - i,
    {
        assert(all.skip(i as int)[0] == vals(mounts@[i as int]@));
        assert(all.skip(i as int).skip(1) =~= all.skip(i + 1));
        let ghost before = texts(out@);
        match join_tabs(&mounts[i]) {
            Ok(line) => {
                let ghost l = line@;
                out.push(line);
                assert(texts(out@) =~= before.push(l));
            },
            Err(e) => return Err(e),
        }
        i += 1;
    }
    Ok(out)
}

/// The mount points of rows that are directories, behind others.
pub open spec fn dirs_of(mounts: Seq<Seq<Val>>, out: Seq<Seq<char>>) -> Result<Seq<Seq<char>>, Seq<char>>
    decreases mounts.len(),
{
    if mounts.len() == 0 {
        Ok(out)
    } else if mounts[0].len() < 2 {
        Err("list index out of range"@)
    } else {
        match mounts[0][1] {
            Val::Text(s) => dirs_of(
                mounts.skip(1),
                if starts(s, "/"@) {
                    out.push(s)
                } else {
                    out
                },
            ),
            other => Err("'"@ + kind_text(other) + "' object has no attribute 'startswith'"@),
        }
    }
}

fn dirs_for(mounts: &Vec<Vec<Node>>) -> (r: Result<Vec<String>, String>)
    ensures
        crate::cc::texts_result(r) == dirs_of(rows(mounts@), Seq::empty()),
{
    let ghost all = rows(mounts@);
    let mut out: Vec<String> = Vec::new();
    let mut i: usize = 0;
    assert(all.skip(0) =~= all);
    assert(texts(out@) =~= Seq::empty());
    while i < mounts.len()
        invariant
            i <= mounts@.len(),
            all == rows(mounts@),
            dirs_of(all.skip(i as int), texts(out@)) == dirs_of(all, Seq::empty()),
        decreases mounts.len() - i,
    {
        let row = &mounts[i];
        assert(all.skip(i as int)[0] == vals(row@));
        assert(all.skip(i as int).skip(1) =~= all.skip(i + 1));
        if row.len() < 2 {
            return Err("list index out of range".to_owned());
        }
        assert(vals(row@)[1] == row@[1]@);
        match &row[1] {
            Node::Text(s) => {
                if starts_with(s.as_str(), "/") {
                    let ghost before = texts(out@);
                    out.push(s.clone());
                    assert(texts(out@) =~= before.push(s@));
                }
            },
            other => return Err(
                cat3("'", kind_name(other).as_str(), "' object has no attribute 'startswith'"),
            ),
        }
        i += 1;
    }
    Ok(out)
}

/// Whether any row is for swap, behind what is known of others.
pub open spec fn any_swap(mounts: Seq<Seq<Val>>, known: bool) -> Result<bool, Seq<char>>
    decreases mounts.len(),
{
    if mounts.len() == 0 {
        Ok(known)
    } else if mounts[0].len() < 3 {
        Err("list index out of range"@)
    } else {
        any_swap(mounts.skip(1), known || mounts[0][2] == Val::Text("swap"@))
    }
}

fn has_swap(mounts: &Vec<Vec<Node>>) -> (r: Result<bool, String>)
    ensures
        match r {
            Ok(b) => any_swap(rows(mounts@), false) == Ok::<bool, Seq<char>>(b),
            Err(e) => any_swap(rows(mounts@), false) == Err::<bool, Seq<char>>(e@),
        },
{
    let ghost all = rows(mounts@);
    let mut known = false;
    let mut i: usize = 0;
    assert(all.skip(0) =~= all);
    while i < mounts.len()
        invariant
            i <= mounts@.len(),
            all == rows(mounts@),
            any_swap(all.skip(i as int), known) == any_swap(all, false),
        decreases mounts.len() - i,
    {
        let row = &mounts[i];
        assert(all.skip(i as int)[0] == vals(row@));
        assert(all.skip(i as int).skip(1) =~= all.skip(i + 1));
        if row.len() < 3 {
            return Err("list index out of range".to_owned());
        }
        assert(vals(row@)[2] == row@[2]@);
        if let Node::Text(s) = &row[2] {
            if same(s.as_str(), "swap") {
                known = true;
            }
        }
        i += 1;
    }
    Ok(known)
}

/// Lines with spaces in place of tabs.
pub open spec fn spaced(lines: Seq<Seq<char>>) -> Seq<Seq<char>> {
    Seq::new(lines.len(), |i: int| replaced(lines[i], "\t"@, " "@))
}

fn spaced_of(lines: &Vec<String>) -> (r: Vec<String>)
    ensures
        texts(r@) == spaced(texts(lines@)),
{
    let ghost all = texts(lines@);
    let mut out: Vec<String> = Vec::new();
    let mut i: usize = 0;
    proof {
        reveal_strlit("\t");
    }
    while i < lines.len()
        invariant
            i <= lines@.len(),
            all == texts(lines@),
            "\t"@.len() == 1,
            texts(out@) == spaced(all).take(i as int),
        decreases lines.len() - i,
    {
        assert(all[i as int] == lines@[i as int]@);
        let ghost before = texts(out@);
        out.push(replace(lines[i].as_str(), "\t", " "));
        assert(texts(out@) =~= before.push(spaced(all)[i as int]));
        i += 1;
        assert(spaced(all).take(i as int) =~= spaced(all).take(i - 1).push(spaced(all)[i - 1]));
    }
    assert(spaced(all).take(i as int) =~= spaced(all));
    out
}

/// The lines that are not among others, each with a sign before it, behind others.
pub open spec fn not_among(lines: Seq<Seq<char>>, others: Seq<Seq<char>>, sign: Seq<char>, out: Seq<Val>) -> Seq<Val>
    decreases lines.len(),
{
    if lines.len() == 0 {
        out
    } else {
        let before = not_among(lines.drop_last(), others, sign, out);
        if others.contains(lines.last()) {
            before
        } else {
            before.push(Val::Text(sign + lines.last()))
        }
    }
}

fn add_not_among(lines: &Vec<String>, others: &Vec<String>, sign: &str, out: &mut Vec<Node>)
    ensures
        vals(final(out)@) == not_among(texts(lines@), texts(others@), sign@, vals(old(out)@)),
{
    let ghost all = texts(lines@);
    let ghost first = vals(out@);
    let mut i: usize = 0;
    assert(all.take(0) =~= Seq::empty());
    while i < lines.len()
        invariant
            i <= lines@.len(),
            all == texts(lines@),
            vals(out@) == not_among(all.take(i as int), texts(others@), sign@, first),
        decreases lines.len() - i,
    {
        assert(all[i as int] == lines@[i as int]@);
        assert(all.take(i + 1).drop_last() =~= all.take(i as int));
        if !has_text(others, lines[i].as_str()) {
            let ghost before = vals(out@);
            out.push(Node::Text(cat2(sign, lines[i].as_str())));
            assert(vals(out@) =~= before.push(Val::Text(sign@ + all[i as int])));
        }
        i += 1;
    }
    assert(all.take(i as int) =~= all);
}

/// The changes between the lines that were written here before and the new ones,
/// without regard to tabs.
pub open spec fn changes(removed: Seq<Seq<char>>, added: Seq<Seq<char>>) -> Seq<Val> {
    not_among(
        spaced(added),
        spaced(removed),
        "+ "@,
        not_among(spaced(removed), spaced(added), "- "@, Seq::empty()),
    )
}

/// What is said of the changes.
pub open spec fn changes_text(ops: Seq<Val>) -> Seq<char> {
    if ops.len() == 0 {
        "No changes to /etc/fstab made."@
    } else {
        "Changes to fstab: "@ + repr(Val::Array(ops))
    }
}

/// The steps that make directories.
pub open spec fn dir_steps(dirs: Seq<Seq<char>>) -> Seq<StepSpec> {
    Seq::new(dirs.len(), |i: int| StepSpec::EnsureConfigDir(dirs[i]))
}

/// The steps for rows: make the mount points, write the table, turn on swap, mount.
pub open spec fn table_steps(mounts: Seq<Seq<Val>>, fstab: FstabSpec, systemd: bool) -> Result<Seq<StepSpec>, Seq<char>> {
    if mounts.len() == 0 {
        Ok(seq![StepSpec::Debug("No modifications to fstab needed"@)])
    } else {
        match (lines_of(mounts, Seq::empty()), dirs_of(mounts, Seq::empty()), any_swap(mounts, false)) {
            (Err(e), _, _) => Err(e),
            (_, Err(e), _) => Err(e),
            (_, _, Err(e)) => Err(e),
            (Ok(added), Ok(dirs), Ok(swap)) => {
                let ops = changes(fstab.removed, added);
                let written = dir_steps(dirs).push(
                    StepSpec::WriteFstab(join(fstab.lines + added, "\n"@) + "\n"@),
                ).push(StepSpec::Debug(changes_text(ops)));
                let swapped = if swap {
                    written.push(StepSpec::SwapOn)
                } else {
                    written
                };
                Ok(
                    swapped.push(
                        StepSpec::MountAll { daemon_reload: systemd, changes_made: ops.len() > 0, dirs },
                    ),
                )
            },
        }
    }
}

pub open spec fn steps_result(r: Result<Vec<Step>, String>) -> Result<Seq<StepSpec>, Seq<char>> {
    match r {
        Ok(v) => Ok(step_specs(v@)),
        Err(e) => Err(e@),
    }
}

fn dir_steps_of(dirs: &Vec<String>) -> (r: Vec<Step>)
    ensures
        step_specs(r@) == dir_steps(texts(dirs@)),
{
    let ghost all = texts(dirs@);
    let mut out: Vec<Step> = Vec::new();
    let mut i: usize = 0;
    assert(step_specs(out@) =~= dir_steps(all).take(0));
    while i < dirs.len()
        invariant
            i <= dirs@.len(),
            all == texts(dirs@),
            step_specs(out@) == dir_steps(all).take(i as int),
        decreases dirs.len() - i,
    {
        assert(all[i as int] == dirs@[i as int]@);
        push_step(&mut out, Step::EnsureConfigDir(dirs[i].clone()));
        i += 1;
        assert(dir_steps(all).take(i as int) =~= dir_steps(all).take(i - 1).push(dir_steps(all)[i - 1]));
    }
    assert(dir_steps(all).take(i as int) =~= dir_steps(all));
    out
}

fn both(a: &Vec<String>, b: &Vec<String>) -> (r: Vec<String>)
    ensures
        texts(r@) == texts(a@) + texts(b@),
{
    let mut out = crate::text::copy_strings(a);
    let ghost first = texts(a@);
    let ghost all = texts(b@);
    let mut i: usize = 0;
    assert(texts(out@) =~= first + all.take(0));
    while i < b.len()
        invariant
            i <= b@.len(),
            all == texts(b@),
            texts(out@) == first + all.take(i as int),
        decreases b.len() - i,
    {
        assert(all[i as int] == b@[i as int]@);
        let ghost before = texts(out@);
        out.push(b[i].clone());
        assert(texts(out@) =~= before.push(all[i as int]));
        i += 1;
        assert(all.take(i as int) =~= all.take(i - 1).push(all[i - 1]));
        assert(texts(out@) =~= first + all.take(i as int));
    }
    assert(all.take(i as int) =~= all);
    out
}

pub fn plan_fstab(mounts: &Vec<Vec<Node>>, fstab: &Fstab, uses_systemd: bool) -> (r: Result<Vec<Step>, String>)
    ensures
        steps_result(r) == table_steps(rows(mounts@), fstab@, uses_systemd),
{
    let mut steps: Vec<Step> = Vec::new();
    if mounts.len() == 0 {
        push_step(&mut steps, Step::Debug("No modifications to fstab needed".to_owned()));
        assert(step_specs(steps@) =~= seq![StepSpec::Debug("No modifications to fstab needed"@)]);
        return Ok(steps);
    }
    let added = match lines_for(mounts) {
        Ok(added) => added,
        Err(e) => return Err(e),
    };
    let dirs = match dirs_for(mounts) {
        Ok(dirs) => dirs,
        Err(e) => return Err(e),
    };
    let swap = match has_swap(mounts) {
        Ok(swap) => swap,
        Err(e) => return Err(e),
    };
    let mut steps = dir_steps_of(&dirs);
    let adds = spaced_of(&added);
    let drops = spaced_of(&fstab.removed);
    let mut ops: Vec<Node> = Vec::new();
    assert(vals(ops@) =~= Seq::empty());
    add_not_among(&drops, &adds, "- ", &mut ops);
    add_not_among(&adds, &drops, "+ ", &mut ops);
    assert(vals(ops@) == changes(texts(fstab.removed@), texts(added@)));
    assert(vals(ops@).len() == ops@.len());
    let lines = both(&fstab.lines, &added);
    push_step(&mut steps, Step::WriteFstab(cat2(join_with(&lines, "\n").as_str(), "\n")));
    let changes_made = ops.len() > 0;
    let said = if ops.len() == 0 {
        "No changes to /etc/fstab made.".to_owned()
    } else {
        cat2("Changes to fstab: ", repr_of(&Node::Array(ops)).as_str())
    };
    push_step(&mut steps, Step::Debug(said));
    if swap {
        push_step(&mut steps, Step::SwapOn);
    }
    push_step(&mut steps, Step::MountAll { daemon_reload: uses_systemd, changes_made, dirs });
    Ok(steps)
}

// ---------------------------------------------------------------------------
// Laws

proof fn mark_in_line(row: Seq<Val>, n: int, text: Seq<char>) -> (at: int)
    requires
        4 <= n,
        row[3] == Val::Text(text + ",comment=cloudconfig"@),
        line_of(row, n) is Ok,
    ensures
        stands_at(line_of(row, n)->Ok_0, "comment=cloudconfig"@, at),
    decreases n,
{
    let line = line_of(row, n)->Ok_0;
    let mark = "comment=cloudconfig"@;
    if n == 4 {
        reveal_strlit("comment=cloudconfig");
        reveal_strlit(",comment=cloudconfig");
        let before = line_of(row, 3)->Ok_0;
        let field = text + ",comment=cloudconfig"@;
        assert(line == before + "\t"@ + field);
        let at = line.len() - mark.len();
        assert(line.subrange(at, at + mark.len()) =~= mark);
        at
    } else {
        let before = line_of(row, n - 1)->Ok_0;
        let at = mark_in_line(row, n - 1, text);
        assert(line.subrange(at, at + mark.len()) =~= before.subrange(at, at + mark.len()));
        at
    }
}

/// A line made of a row with the mark is known again when the table is read: it is
/// taken out, and neither kept nor counted among the devices.
pub proof fn own_lines_are_known_again(row: Seq<Val>, table: FstabSpec)
    requires
        marked(row) is Ok,
        line_of(marked(row)->Ok_0, row.len() as int) is Ok,
    ensures
        ({
            let line = line_of(marked(row)->Ok_0, row.len() as int)->Ok_0;
            let read = with_line(table, line);
            &&& read.removed == table.removed.push(line)
            &&& read.lines == table.lines
            &&& read.devs == table.devs
        }),
{
    let m = marked(row)->Ok_0;
    let line = line_of(m, row.len() as int)->Ok_0;
    let at = mark_in_line(m, row.len() as int, show(row[3]));
    has_is_somewhere(line, "comment=cloudconfig"@);
}

/// Every row that is kept has a mount point.
pub proof fn kept_rows_have_a_mount_point(mounts: Seq<Seq<Val>>, denied: Seq<Val>, steps: Seq<StepSpec>, i: int)
    requires
        rows_kept(mounts, denied, steps).1 is Ok,
        0 <= i < rows_kept(mounts, denied, steps).1->Ok_0.len(),
    ensures
        rows_kept(mounts, denied, steps).1->Ok_0[i].len() >= 2,
        !(rows_kept(mounts, denied, steps).1->Ok_0[i][1] is Null),
    decreases mounts.len(),
{
    if mounts.len() > 0 {
        let row = mounts.last();
        if row[1] is Null || any_equal(denied, row[0]) {
            kept_rows_have_a_mount_point(
                mounts.drop_last(),
                denied.push(row[0]),
                steps.push(StepSpec::Debug("Skipping nonexistent device named "@ + show(row[0]))),
                i,
            );
        } else {
            let kept = rows_kept(mounts.drop_last(), denied, steps).1->Ok_0;
            if i < kept.len() {
                kept_rows_have_a_mount_point(mounts.drop_last(), denied, steps, i);
            }
        }
    }
}

/// The lines of the table that were not written here stay as they are, before
/// those that are added.
pub proof fn other_lines_are_kept(mounts: Seq<Seq<Val>>, fstab: FstabSpec, systemd: bool)
    requires
        mounts.len() > 0,
        table_steps(mounts, fstab, systemd) is Ok,
    ensures
        exists|added: Seq<Seq<char>>|
            table_steps(mounts, fstab, systemd)->Ok_0.contains(
                StepSpec::WriteFstab(#[trigger] join(fstab.lines + added, "\n"@) + "\n"@),
            ),
{
    let added = lines_of(mounts, Seq::empty())->Ok_0;
    let dirs = dirs_of(mounts, Seq::empty())->Ok_0;
    let steps = table_steps(mounts, fstab, systemd)->Ok_0;
    let written = StepSpec::WriteFstab(join(fstab.lines + added, "\n"@) + "\n"@);
    assert(steps[dirs.len() as int] == written);
    assert(steps.contains(written));
}

}
