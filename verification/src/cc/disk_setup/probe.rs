//! What the disk tools say of a device.

use vstd::prelude::*;

use crate::case::{lowercase, to_lower};
use crate::cc::disk_setup::host::{log_warn, warned, Call, Host};
use crate::cc::growpart::{error_text, int_list, output, Failed, ProcError};
use crate::machine::{asked, text_table, Machine};
use crate::number::{dec, dec_of};
use crate::shlex::{shell_words, split as shell_split};
use crate::space::{feed_lines, feed_lines_of, fold, fold_of, trim, trim_of, words, words_of, Class};
use crate::text::{
    argv4, cat3, cat4, opt_text, prepend, prepend_empty, prepend_push, same, split, split_on, texts, texts_push,
};
use crate::value::{Node, Val};

verus! {

/// A machine that disk setup works on.
pub type Disks<H> = Machine<Call, <H as Host>::World>;

/// Runs a command with everything spelt out.
pub open spec fn run_full<H: Host>(
    m: Disks<H>,
    argv: Seq<Seq<char>>,
    data: Option<Seq<char>>,
    env: Seq<(Seq<char>, Seq<char>)>,
    rcs: Seq<int>,
) -> (Disks<H>, Result<(Seq<char>, Seq<char>), Failed>) {
    let call = Call::Subp { argv, data, env, rcs };
    let (w, a) = H::reply(m.world, call);
    (asked(m, call, w), a->Output_0)
}

/// Runs a command that must exit with code zero.
pub open spec fn run<H: Host>(m: Disks<H>, argv: Seq<Seq<char>>) -> (Disks<H>, Result<(Seq<char>, Seq<char>), Failed>) {
    run_full::<H>(m, argv, None, Seq::empty(), seq![0int])
}

pub open spec fn which<H: Host>(m: Disks<H>, program: Seq<char>) -> (Disks<H>, Option<Seq<char>>) {
    let (w, a) = H::reply(m.world, Call::Which(program));
    (asked(m, Call::Which(program), w), a->MaybeText_0)
}

pub open spec fn exists_at<H: Host>(m: Disks<H>, path: Seq<char>) -> (Disks<H>, bool) {
    let (w, a) = H::reply(m.world, Call::Exists(path));
    (asked(m, Call::Exists(path), w), a->Flag_0)
}

/// The variables that make a tool print in its own language.
pub open spec fn lang_c() -> Seq<(Seq<char>, Seq<char>)> {
    seq![("LANG"@, "C"@)]
}

pub fn lang_c_env() -> (r: Vec<(String, String)>)
    ensures
        text_table(r@) == lang_c(),
{
    let mut out: Vec<(String, String)> = Vec::new();
    out.push(("LANG".to_owned(), "C".to_owned()));
    assert(text_table(out@) =~= lang_c());
    out
}

/// Runs a command with standard input and variables; only code zero is success.
pub fn run_input_of<H: Host>(host: &mut H, argv: &Vec<String>, data: Option<&str>, env: &Vec<(String, String)>) -> (r:
    Result<(String, String), ProcError>)
    ensures
        (final(host).machine(), output(r)) == run_full::<H>(
            old(host).machine(),
            texts(argv@),
            match data {
                Some(d) => Some(d@),
                None => None,
            },
            text_table(env@),
            seq![0int],
        ),
{
    let mut rcs: Vec<i32> = Vec::new();
    rcs.push(0);
    assert(int_list(rcs@) =~= seq![0int]);
    host.subp(argv, data, env, &rcs)
}

pub fn run_of<H: Host>(host: &mut H, argv: &Vec<String>) -> (r: Result<(String, String), ProcError>)
    ensures
        (final(host).machine(), output(r)) == run::<H>(old(host).machine(), texts(argv@)),
{
    let env: Vec<(String, String)> = Vec::new();
    assert(text_table(env@) =~= Seq::empty());
    run_input_of(host, argv, None, &env)
}

// ---------------------------------------------------------------------------
// Columns

/// A row of `lsblk`, with the columns that it printed.
#[derive(Debug, Clone, PartialEq, Eq)]
pub struct Entry {
    pub name: Option<String>,
    pub kind: Option<String>,
    pub fstype: Option<String>,
    pub label: Option<String>,
}

/// The mathematical form of an [`Entry`].
pub struct Row {
    pub name: Option<Seq<char>>,
    pub kind: Option<Seq<char>>,
    pub fstype: Option<Seq<char>>,
    pub label: Option<Seq<char>>,
}

impl View for Entry {
    type V = Row;

    open spec fn view(&self) -> Row {
        Row {
            name: opt_text(self.name),
            kind: opt_text(self.kind),
            fstype: opt_text(self.fstype),
            label: opt_text(self.label),
        }
    }
}

pub open spec fn rows(v: Seq<Entry>) -> Seq<Row> {
    Seq::new(v.len(), |i: int| v[i]@)
}

/// The two sides of each `key=value`.
pub open spec fn sides(tokens: Seq<Seq<char>>) -> Result<Seq<(Seq<char>, Seq<char>)>, Seq<char>>
    decreases tokens.len(),
{
    if tokens.len() == 0 {
        Ok(Seq::empty())
    } else {
        let f = split(tokens[0], "="@);
        if f.len() == 2 {
            prepend(seq![(f[0], f[1])], sides(tokens.skip(1)))
        } else if f.len() == 1 {
            Err("not enough values to unpack (expected 2, got 1)"@)
        } else {
            Err("too many values to unpack (expected 2, got "@ + dec(f.len()) + ")"@)
        }
    }
}

/// The columns of a line, from the token `start` on.
pub open spec fn columns(line: Seq<char>, start: nat) -> Result<Seq<(Seq<char>, Seq<char>)>, Seq<char>> {
    match shell_words(line) {
        Ok(tokens) => sides(if start <= tokens.len() {
            tokens.skip(start as int)
        } else {
            Seq::empty()
        }),
        Err(e) => Err(e),
    }
}

/// Splits a line into its columns.
pub fn value_splitter(values: &str, start: usize) -> (r: Result<Vec<(String, String)>, String>)
    ensures
        match r {
            Ok(v) => columns(values@, start as nat) == Ok::<Seq<(Seq<char>, Seq<char>)>, Seq<char>>(text_table(v@)),
            Err(e) => columns(values@, start as nat) == Err::<Seq<(Seq<char>, Seq<char>)>, Seq<char>>(e@),
        },
{
    let tokens = match shell_split(values) {
        Ok(tokens) => tokens,
        Err(e) => return Err(e),
    };
    let ghost all = texts(tokens@);
    let ghost from = if start <= all.len() {
        all.skip(start as int)
    } else {
        Seq::empty()
    };
    let mut out: Vec<(String, String)> = Vec::new();
    let mut i: usize = start;
    proof {
        reveal_strlit("=");
        assert(text_table(out@) =~= Seq::empty());
        prepend_empty(sides(from));
        if start <= all.len() {
            assert(from.skip(0) =~= from);
        }
    }
    while i < tokens.len()
        invariant
            all == texts(tokens@),
            start <= i,
            "="@.len() == 1,
            i < tokens.len() ==> from == all.skip(start as int),
            start <= tokens.len() ==> i <= tokens.len() && from == all.skip(start as int),
            start > tokens.len() ==> i == start,
            sides(from) == columns(values@, start as nat),
            start <= tokens.len() ==> prepend(text_table(out@), sides(all.skip(i as int))) == sides(from),
            start > tokens.len() ==> out@.len() == 0,
        decreases tokens.len() - i,
    {
        let fields = split_on(tokens[i].as_str(), "=");
        let ghost rest = all.skip(i as int);
        assert(rest[0] == tokens@[i as int]@);
        assert(rest.skip(1) =~= all.skip(i + 1));
        if fields.len() == 2 {
            let ghost before = text_table(out@);
            proof {
                prepend_push(before, (fields@[0]@, fields@[1]@), sides(all.skip(i + 1)));
                assert(texts(fields@)[0] == fields@[0]@ && texts(fields@)[1] == fields@[1]@);
            }
            out.push((fields[0].clone(), fields[1].clone()));
            assert(text_table(out@) =~= before.push((fields@[0]@, fields@[1]@)));
        } else if fields.len() == 1 {
            return Err("not enough values to unpack (expected 2, got 1)".to_owned());
        } else {
            return Err(
                cat3(
                    "too many values to unpack (expected 2, got ",
                    dec_of(fields.len() as u128).as_str(),
                    ")",
                ),
            );
        }
        i += 1;
    }
    proof {
        if start <= tokens.len() {
            assert(text_table(out@) + Seq::<(Seq<char>, Seq<char>)>::empty() =~= text_table(out@));
        } else {
            assert(text_table(out@) =~= Seq::empty());
        }
    }
    Ok(out)
}

/// A row with one more column read. Columns with other names are not kept.
pub open spec fn with_column(row: Row, key: Seq<char>, value: Seq<char>) -> Row {
    let k = fold(key);
    if k == "name"@ {
        Row { name: Some(value), ..row }
    } else if k == "type"@ {
        Row { kind: Some(value), ..row }
    } else if k == "fstype"@ {
        Row { fstype: Some(value), ..row }
    } else if k == "label"@ {
        Row { label: Some(value), ..row }
    } else {
        row
    }
}

pub open spec fn empty_row() -> Row {
    Row { name: None, kind: None, fstype: None, label: None }
}

/// The row that columns make.
pub open spec fn row_of(cols: Seq<(Seq<char>, Seq<char>)>) -> Row
    decreases cols.len(),
{
    if cols.len() == 0 {
        empty_row()
    } else {
        with_column(row_of(cols.drop_last()), cols.last().0, cols.last().1)
    }
}

fn make_entry(cols: &Vec<(String, String)>) -> (r: Entry)
    ensures
        r@ == row_of(text_table(cols@)),
{
    let ghost t = text_table(cols@);
    let mut entry = Entry { name: None, kind: None, fstype: None, label: None };
    let mut i: usize = 0;
    while i < cols.len()
        invariant
            i <= cols@.len(),
            t == text_table(cols@),
            entry@ == row_of(t.take(i as int)),
        decreases cols.len() - i,
    {
        let key = fold_of(cols[i].0.as_str());
        let key = key.as_str();
        let value = cols[i].1.clone();
        if same(key, "name") {
            entry.name = Some(value);
        } else if same(key, "type") {
            entry.kind = Some(value);
        } else if same(key, "fstype") {
            entry.fstype = Some(value);
        } else if same(key, "label") {
            entry.label = Some(value);
        }
        i += 1;
        assert(t.take(i as int).drop_last() =~= t.take(i - 1));
    }
    assert(t.take(i as int) =~= t);
    entry
}

/// The rows of the lines that `lsblk` printed; blank lines are passed over.
pub open spec fn rows_of(lines: Seq<Seq<char>>) -> Result<Seq<Row>, Seq<char>>
    decreases lines.len(),
{
    if lines.len() == 0 {
        Ok(Seq::empty())
    } else if words(Class::Space, lines[0]).len() == 0 {
        rows_of(lines.skip(1))
    } else {
        match columns(lines[0], 0) {
            Ok(cols) => prepend(seq![row_of(cols)], rows_of(lines.skip(1))),
            Err(e) => Err(e),
        }
    }
}

fn read_rows(info: &str) -> (r: Result<Vec<Entry>, String>)
    ensures
        match r {
            Ok(v) => rows_of(feed_lines(trim(Class::Space, info@))) == Ok::<Seq<Row>, Seq<char>>(rows(v@)),
            Err(e) => rows_of(feed_lines(trim(Class::Space, info@))) == Err::<Seq<Row>, Seq<char>>(e@),
        },
{
    let lines = feed_lines_of(trim_of(Class::Space, info).as_str());
    let ghost all = texts(lines@);
    let mut out: Vec<Entry> = Vec::new();
    let mut i: usize = 0;
    proof {
        assert(all.skip(0) =~= all);
        assert(rows(out@) =~= Seq::empty());
        prepend_empty(rows_of(all));
    }
    while i < lines.len()
        invariant
            all == texts(lines@),
            all == feed_lines(trim(Class::Space, info@)),
            i <= lines@.len(),
            prepend(rows(out@), rows_of(all.skip(i as int))) == rows_of(all),
        decreases lines.len() - i,
    {
        assert(all.skip(i as int).skip(1) =~= all.skip(i + 1));
        let line = lines[i].as_str();
        assert(all.skip(i as int)[0] == line@);
        if words_of(Class::Space, line).len() > 0 {
            match value_splitter(line, 0) {
                Ok(cols) => {
                    let entry = make_entry(&cols);
                    proof {
                        prepend_push(rows(out@), entry@, rows_of(all.skip(i + 1)));
                        assert(rows(out@.push(entry)) =~= rows(out@).push(entry@));
                    }
                    out.push(entry);
                },
                Err(e) => return Err(e),
            }
        }
        i += 1;
    }
    assert(rows(out@) + Seq::<Row>::empty() =~= rows(out@));
    Ok(out)
}

/// The command that lists a device.
pub open spec fn lsblk(device: Seq<char>, nodeps: bool) -> Seq<Seq<char>> {
    let base = seq!["lsblk"@, "--pairs"@, "--output"@, "NAME,TYPE,FSTYPE,LABEL"@, device];
    if nodeps {
        base.push("--nodeps"@)
    } else {
        base
    }
}

/// The failure of a check of a device.
pub open spec fn check_failed(device: Seq<char>, e: Failed) -> Seq<char> {
    "Failed during disk check for "@ + device + "\n"@ + error_text(e)
}

/// A device and what hangs off it.
pub open spec fn enumerate<H: Host>(m: Disks<H>, device: Seq<char>, nodeps: bool) -> (Disks<H>, Result<Seq<Row>, Seq<char>>) {
    let (m1, out) = run::<H>(m, lsblk(device, nodeps));
    (
        m1,
        match out {
            Ok(o) => rows_of(feed_lines(trim(Class::Space, o.0))),
            Err(e) => Err(check_failed(device, e)),
        },
    )
}

/// The mathematical form of a list of rows or a failure.
pub open spec fn rows_result(r: Result<Vec<Entry>, String>) -> Result<Seq<Row>, Seq<char>> {
    match r {
        Ok(v) => Ok(rows(v@)),
        Err(e) => Err(e@),
    }
}

pub fn enumerate_disk<H: Host>(host: &mut H, device: &str, nodeps: bool) -> (r: Result<Vec<Entry>, String>)
    ensures
        (final(host).machine(), rows_result(r)) == enumerate::<H>(old(host).machine(), device@, nodeps),
{
    broadcast use texts_push;
    let mut argv = argv4("lsblk", "--pairs", "--output", "NAME,TYPE,FSTYPE,LABEL");
    argv.push(device.to_owned());
    if nodeps {
        argv.push("--nodeps".to_owned());
    }
    assert(texts(argv@) =~= lsblk(device@, nodeps));
    match run_of(host, &argv) {
        Ok(out) => read_rows(out.0.as_str()),
        Err(e) => Err(cat4("Failed during disk check for ", device, "\n", e.to_text().as_str())),
    }
}

// ---------------------------------------------------------------------------
// Questions about a device

/// An optional text, or a failure.
pub open spec fn maybe_text(r: Result<Option<String>, String>) -> Result<Option<Seq<char>>, Seq<char>> {
    match r {
        Ok(o) => Ok(opt_text(o)),
        Err(e) => Err(e@),
    }
}

/// The kind of a device, as the first row of its listing has it.
pub open spec fn listed_kind<H: Host>(m: Disks<H>, device: Seq<char>) -> (
    Disks<H>,
    Result<Option<Seq<char>>, Seq<char>>,
) {
    let (m1, listed) = enumerate::<H>(m, device, true);
    (
        m1,
        match listed {
            Err(e) => Err(e),
            Ok(list) => if list.len() == 0 {
                Ok(None)
            } else {
                match list[0].kind {
                    Some(kind) => Ok(Some(kind)),
                    None => Err("'NoneType' object has no attribute 'lower'"@),
                }
            },
        },
    )
}

/// The kind of a device, in lower case.
pub open spec fn kind_of<H: Host>(m: Disks<H>, device: Seq<char>) -> (Disks<H>, Result<Option<Seq<char>>, Seq<char>>) {
    let (m1, kind) = listed_kind::<H>(m, device);
    (
        m1,
        match kind {
            Ok(Some(kind)) => Ok(Some(lowercase(kind))),
            _ => kind,
        },
    )
}

pub fn listed_type<H: Host>(host: &mut H, device: &str) -> (r: Result<Option<String>, String>)
    ensures
        (final(host).machine(), maybe_text(r)) == listed_kind::<H>(old(host).machine(), device@),
{
    let entries = match enumerate_disk(host, device, true) {
        Ok(entries) => entries,
        Err(e) => return Err(e),
    };
    if entries.len() == 0 {
        return Ok(None);
    }
    assert(rows(entries@)[0] == entries@[0]@);
    match &entries[0].kind {
        Some(kind) => Ok(Some(kind.clone())),
        None => Err("'NoneType' object has no attribute 'lower'".to_owned()),
    }
}

pub fn device_type<H: Host>(host: &mut H, device: &str) -> (r: Result<Option<String>, String>)
    ensures
        (final(host).machine(), maybe_text(r)) == kind_of::<H>(old(host).machine(), device@),
{
    match listed_type(host, device) {
        Ok(Some(kind)) => Ok(Some(to_lower(kind.as_str()))),
        Ok(None) => Ok(None),
        Err(e) => Err(e),
    }
}

/// Whether a device is of a kind, without regard to case. A device that cannot be asked
/// is not, and is warned of.
pub open spec fn is_kind<H: Host>(m: Disks<H>, device: Seq<char>, wanted: Seq<char>) -> (Disks<H>, bool) {
    let (m1, kind) = listed_kind::<H>(m, device);
    match kind {
        Err(_) => (warned::<H>(m1, "Query against device "@ + device + " failed"@), false),
        Ok(None) => (m1, false),
        Ok(Some(kind)) => (m1, fold(kind) == wanted),
    }
}

/// Whether a device is a whole disk.
pub open spec fn is_disk<H: Host>(m: Disks<H>, device: Seq<char>) -> (Disks<H>, bool) {
    is_kind::<H>(m, device, "disk"@)
}

/// Whether a device is a partition, or else whether it is a whole disk.
pub fn is_device_valid<H: Host>(host: &mut H, name: &str, partition: bool) -> (r: bool)
    ensures
        (final(host).machine(), r) == is_kind::<H>(
            old(host).machine(),
            name@,
            if partition {
                "part"@
            } else {
                "disk"@
            },
        ),
{
    let wanted = if partition {
        "part"
    } else {
        "disk"
    };
    match listed_type(host, name) {
        Ok(Some(kind)) => same(fold_of(kind.as_str()).as_str(), wanted),
        Ok(None) => false,
        Err(_) => {
            log_warn(host, cat3("Query against device ", name, " failed").as_str());
            false
        },
    }
}

/// What `blkid` knows of a filesystem.
pub struct FsInfo {
    pub label: Option<Seq<char>>,
    pub fs_type: Option<Seq<char>>,
    pub uuid: Option<Seq<char>>,
}

/// What is known, with one more column read.
pub open spec fn with_tag(info: FsInfo, key: Seq<char>, value: Seq<char>) -> FsInfo {
    let k = fold(key);
    if k == "label"@ {
        FsInfo { label: Some(value), ..info }
    } else if k == "type"@ {
        FsInfo { fs_type: Some(value), ..info }
    } else if k == "uuid"@ {
        FsInfo { uuid: Some(value), ..info }
    } else {
        info
    }
}

pub open spec fn tags_of(cols: Seq<(Seq<char>, Seq<char>)>) -> FsInfo
    decreases cols.len(),
{
    if cols.len() == 0 {
        FsInfo { label: None, fs_type: None, uuid: None }
    } else {
        with_tag(tags_of(cols.drop_last()), cols.last().0, cols.last().1)
    }
}

/// What the output of `blkid` says: nothing unless it is one line.
pub open spec fn fs_info(out: Seq<char>) -> Result<FsInfo, Seq<char>> {
    if out.len() > 0 && feed_lines(out).len() == 1 {
        match columns(out, 1) {
            Ok(cols) => Ok(tags_of(cols)),
            Err(e) => Err(e),
        }
    } else {
        Ok(tags_of(Seq::empty()))
    }
}

/// Asks for the filesystem on a device. That there is none is no failure.
pub open spec fn filesystem<H: Host>(m: Disks<H>, device: Seq<char>) -> (Disks<H>, Result<FsInfo, Seq<char>>) {
    let (m1, out) = run_full::<H>(
        m,
        seq!["blkid"@, "-c"@, "/dev/null"@, device],
        None,
        Seq::empty(),
        seq![0int, 2int],
    );
    (
        m1,
        match out {
            Ok(o) => fs_info(o.0),
            Err(e) => Err(check_failed(device, e)),
        },
    )
}

/// A label, a filesystem type and a UUID.
pub type FsTags = (Option<String>, Option<String>, Option<String>);

pub open spec fn tags_result(r: Result<FsTags, String>) -> Result<FsInfo, Seq<char>> {
    match r {
        Ok(t) => Ok(FsInfo { label: opt_text(t.0), fs_type: opt_text(t.1), uuid: opt_text(t.2) }),
        Err(e) => Err(e@),
    }
}

fn read_tags(out: &str) -> (r: Result<FsTags, String>)
    ensures
        tags_result(r) == fs_info(out@),
{
    let mut label: Option<String> = None;
    let mut fs_type: Option<String> = None;
    let mut uuid: Option<String> = None;
    if !out.is_empty() && feed_lines_of(out).len() == 1 {
        let cols = match value_splitter(out, 1) {
            Ok(cols) => cols,
            Err(e) => return Err(e),
        };
        let ghost t = text_table(cols@);
        let mut i: usize = 0;
        while i < cols.len()
            invariant
                i <= cols@.len(),
                t == text_table(cols@),
                (FsInfo { label: opt_text(label), fs_type: opt_text(fs_type), uuid: opt_text(uuid) }) == tags_of(
                    t.take(i as int),
                ),
            decreases cols.len() - i,
        {
            let key = fold_of(cols[i].0.as_str());
            let key = key.as_str();
            let value = cols[i].1.clone();
            if same(key, "label") {
                label = Some(value);
            } else if same(key, "type") {
                fs_type = Some(value);
            } else if same(key, "uuid") {
                uuid = Some(value);
            }
            i += 1;
            assert(t.take(i as int).drop_last() =~= t.take(i - 1));
        }
        assert(t.take(i as int) =~= t);
    }
    Ok((label, fs_type, uuid))
}

pub fn check_fs<H: Host>(host: &mut H, device: &str) -> (r: Result<FsTags, String>)
    ensures
        (final(host).machine(), tags_result(r)) == filesystem::<H>(old(host).machine(), device@),
{
    let argv = argv4("blkid", "-c", "/dev/null", device);
    let env: Vec<(String, String)> = Vec::new();
    assert(text_table(env@) =~= Seq::empty());
    let mut rcs: Vec<i32> = Vec::new();
    rcs.push(0);
    rcs.push(2);
    assert(int_list(rcs@) =~= seq![0int, 2int]);
    match host.subp(&argv, None, &env, &rcs) {
        Ok(out) => read_tags(out.0.as_str()),
        Err(e) => Err(cat4("Failed during disk check for ", device, "\n", e.to_text().as_str())),
    }
}

/// Whether a column equals what the configuration asks for: only a text can
/// equal a column that was printed, and only nothing one that was not.
pub open spec fn column_is(column: Option<Seq<char>>, wanted: Val) -> bool {
    match wanted {
        Val::Null => column is None,
        Val::Text(text) => column == Some(text),
        _ => false,
    }
}

pub fn py_eq(column: &Option<String>, expected: &Node) -> (r: bool)
    ensures
        r == column_is(opt_text(*column), expected@),
{
    match expected {
        Node::Null => column.is_none(),
        Node::Text(text) => match column {
            Some(c) => same(c.as_str(), text.as_str()),
            None => false,
        },
        _ => false,
    }
}

/// Whether a column was printed with something in it.
pub open spec fn filled(column: Option<Seq<char>>) -> bool {
    match column {
        Some(text) => text.len() > 0,
        None => false,
    }
}

pub fn truthy_opt(column: &Option<String>) -> (r: bool)
    ensures
        r == filled(opt_text(*column)),
{
    match column {
        Some(text) => !text.as_str().is_empty(),
        None => false,
    }
}

/// What is looked for on a device.
pub struct Wanted {
    pub fs_type: Val,
    pub label: Val,
    pub label_match: bool,
    pub replace_fs: Val,
}

/// The device file of a row.
pub open spec fn node_of(row: Row) -> Seq<char> {
    "/dev/"@ + (match row.name {
        Some(name) => name,
        None => Seq::empty(),
    })
}

/// The label that is looked for: nothing is the empty text.
pub open spec fn wanted_label(label: Val) -> Val {
    match label {
        Val::Null => Val::Text(Seq::empty()),
        _ => label,
    }
}

/// The node among the rows that a filesystem is to go on, and whether it is
/// there already. A device that is in use as a whole is no candidate.
pub open spec fn pick(list: Seq<Row>, device: Seq<char>, want: Wanted, raw_used: bool) -> (Option<Seq<char>>, bool)
    decreases list.len(),
{
    if list.len() == 0 {
        (
            if raw_used {
                None
            } else {
                Some(device)
            },
            false,
        )
    } else {
        let row = list[0];
        let known = row.kind == Some("disk"@) || row.kind == Some("part"@);
        if column_is(row.fstype, want.replace_fs) && !want.label_match {
            (Some(node_of(row)), false)
        } else if column_is(row.fstype, want.fs_type) && (!want.label_match || column_is(
            row.label,
            wanted_label(want.label),
        )) {
            (Some(node_of(row)), true)
        } else if row.kind == Some("part"@) && !filled(row.fstype) {
            (Some(node_of(row)), false)
        } else {
            pick(
                list.skip(1),
                device,
                want,
                raw_used || (known && (row.kind != Some("disk"@) || filled(row.fstype))),
            )
        }
    }
}

/// Looks for the node that a filesystem is to go on. That there is none is warned of.
pub open spec fn find_node<H: Host>(m: Disks<H>, device: Seq<char>, want: Wanted) -> (
    Disks<H>,
    Result<(Option<Seq<char>>, bool), Seq<char>>,
) {
    let (m1, listed) = enumerate::<H>(m, device, false);
    match listed {
        Ok(list) => {
            let found = pick(list, device, want, false);
            (
                if found.0 is None {
                    warned::<H>(m1, "Failed to find device during available device search."@)
                } else {
                    m1
                },
                Ok(found),
            )
        },
        Err(e) => (m1, Err(e)),
    }
}

pub open spec fn found_result(r: Result<(Option<String>, bool), String>) -> Result<(Option<Seq<char>>, bool), Seq<char>> {
    match r {
        Ok(p) => Ok((opt_text(p.0), p.1)),
        Err(e) => Err(e@),
    }
}

pub fn find_device_node<H: Host>(
    host: &mut H,
    device: &str,
    fs_type: &Node,
    label: &Node,
    label_match: bool,
    replace_fs: &Node,
) -> (r: Result<(Option<String>, bool), String>)
    ensures
        (final(host).machine(), found_result(r)) == find_node::<H>(
            old(host).machine(),
            device@,
            Wanted { fs_type: fs_type@, label: label@, label_match, replace_fs: replace_fs@ },
        ),
{
    let ghost want = Wanted { fs_type: fs_type@, label: label@, label_match, replace_fs: replace_fs@ };
    let sought = if label.is_null() {
        let empty = String::new();
        Node::Text(empty)
    } else {
        label.clone()
    };
    assert(sought@ == wanted_label(want.label)) by {
        if want.label is Null {
            assert(sought@->Text_0 =~= Seq::empty());
        }
    }
    let entries = match enumerate_disk(host, device, false) {
        Ok(entries) => entries,
        Err(e) => return Err(e),
    };
    let ghost list = rows(entries@);
    let mut raw_used = false;
    let mut i: usize = 0;
    assert(list.skip(0) =~= list);
    while i < entries.len()
        invariant
            i <= entries@.len(),
            list == rows(entries@),
            want == (Wanted { fs_type: fs_type@, label: label@, label_match, replace_fs: replace_fs@ }),
            sought@ == wanted_label(want.label),
            pick(list.skip(i as int), device@, want, raw_used) == pick(list, device@, want, false),
            enumerate::<H>(old(host).machine(), device@, false) == (
                host.machine(),
                Ok::<Seq<Row>, Seq<char>>(list),
            ),
        decreases entries.len() - i,
    {
        let entry = &entries[i];
        assert(list.skip(i as int)[0] == entry@);
        assert(list.skip(i as int).skip(1) =~= list.skip(i + 1));
        let name = match &entry.name {
            Some(name) => name.clone(),
            None => String::new(),
        };
        let node = crate::text::cat2("/dev/", name.as_str());
        assert(node@ =~= node_of(entry@));
        if py_eq(&entry.fstype, replace_fs) && !label_match {
            return Ok((Some(node), false));
        }
        if py_eq(&entry.fstype, fs_type) && (!label_match || py_eq(&entry.label, &sought)) {
            return Ok((Some(node), true));
        }
        let is_disk_row = match &entry.kind {
            Some(kind) => same(kind.as_str(), "disk"),
            None => false,
        };
        let is_part_row = match &entry.kind {
            Some(kind) => same(kind.as_str(), "part"),
            None => false,
        };
        if is_part_row && !truthy_opt(&entry.fstype) {
            proof {
                reveal_strlit("disk");
                reveal_strlit("part");
            }
            return Ok((Some(node), false));
        }
        if (is_disk_row || is_part_row) && (!is_disk_row || truthy_opt(&entry.fstype)) {
            raw_used = true;
        }
        i += 1;
    }
    if raw_used {
        log_warn(host, "Failed to find device during available device search.");
        Ok((None, false))
    } else {
        Ok((Some(device.to_owned()), false))
    }
}

/// Whether a disk has children or a filesystem.
pub open spec fn in_use<H: Host>(m: Disks<H>, device: Seq<char>) -> (Disks<H>, Result<bool, Seq<char>>) {
    let (m1, listed) = enumerate::<H>(m, device, false);
    match listed {
        Err(e) => (m1, Err(e)),
        Ok(list) => if list.len() > 1 {
            (m1, Ok(true))
        } else {
            let (m2, info) = filesystem::<H>(m1, device);
            (
                m2,
                match info {
                    Ok(tags) => Ok(filled(tags.fs_type)),
                    Err(e) => Err(e),
                },
            )
        },
    }
}

pub open spec fn flag_result(r: Result<bool, String>) -> Result<bool, Seq<char>> {
    match r {
        Ok(b) => Ok(b),
        Err(e) => Err(e@),
    }
}

pub fn is_disk_used<H: Host>(host: &mut H, device: &str) -> (r: Result<bool, String>)
    ensures
        (final(host).machine(), flag_result(r)) == in_use::<H>(old(host).machine(), device@),
{
    match enumerate_disk(host, device, false) {
        Err(e) => Err(e),
        Ok(entries) => if entries.len() > 1 {
            Ok(true)
        } else {
            match check_fs(host, device) {
                Ok(tags) => Ok(truthy_opt(&tags.1)),
                Err(e) => Err(e),
            }
        },
    }
}

}
