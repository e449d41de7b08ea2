//! Answers for packages that are asked for before they are installed.

use vstd::prelude::*;
use vstd::string::*;
use vstd::utf8::encode_utf8;

use crate::case::debug_of;
use crate::cc::apt_configure::commands::{command_run, is_live, refusal, run_command};
use crate::cc::apt_configure::host::{
    ask_dpkg_list, ask_feed, ask_list_dir, ask_remove_file, log_debug, log_warn, logged, warned,
    Host, Site,
};
use crate::cc::apt_configure::mirror::{distinct, distinct_of, glob_names, names_matching};
use crate::cc::{texts_result, unit_result};
use crate::order::{insert_text, sorted_set, with_text};
use crate::paths::{path_within, within};
use crate::show::{
    kind_name, kind_text, list_repr, list_repr_of, py_str, py_truthy, set_repr, set_repr_of, show, truthy,
};
use crate::space::{
    first_at, first_of, first_of_bounds, text_lines, text_lines_of, words, words_of, Class,
};
use crate::text::{
    argv1, argv2, cat2, cat3, chars_of, ends, ends_with, has_text, head, head_of, join, join_with, same, slice_text, starts,
    starts_with, texts, texts_push,
};
use crate::value::{get, keys, Node, Object, Val};

verus! {

// ---------------------------------------------------------------------------
// What is installed

/// The package on a line of the list of packages, where it is installed or held.
pub open spec fn installed_on(line: Seq<char>) -> Option<Seq<char>> {
    let fields = words(Class::TextSpace, line);
    if fields.len() >= 3 && (starts(fields[0], "hi"@) || starts(fields[0], "ii"@)) {
        Some(head(fields[1], ":"@))
    } else {
        None
    }
}

/// The packages on lines, in order, behind others.
pub open spec fn installed_in(lines: Seq<Seq<char>>) -> Seq<Seq<char>>
    decreases lines.len(),
{
    if lines.len() == 0 {
        Seq::empty()
    } else {
        let before = installed_in(lines.drop_last());
        match installed_on(lines.last()) {
            Some(name) => with_text(before, name),
            None => before,
        }
    }
}

pub fn installed_packages(stdout: &str) -> (r: Vec<String>)
    ensures
        texts(r@) == installed_in(text_lines(stdout@)),
{
    let lines = text_lines_of(stdout);
    let ghost all = texts(lines@);
    let mut out: Vec<String> = Vec::new();
    let mut i: usize = 0;
    assert(texts(out@) =~= installed_in(all.take(0)));
    while i < lines.len()
        invariant
            i <= lines@.len(),
            all == texts(lines@),
            texts(out@) == installed_in(all.take(i as int)),
        decreases lines.len() - i,
    {
        assert(all[i as int] == lines@[i as int]@);
        assert(all.take(i + 1).drop_last() =~= all.take(i as int));
        let fields = words_of(Class::TextSpace, lines[i].as_str());
        assert(texts(fields@).len() == fields@.len());
        if fields.len() >= 3 {
            assert(texts(fields@)[0] == fields@[0]@ && texts(fields@)[1] == fields@[1]@);
            if starts_with(fields[0].as_str(), "hi") || starts_with(fields[0].as_str(), "ii") {
                insert_text(&mut out, head_of(fields[1].as_str(), ":").as_str());
            }
        }
        i += 1;
    }
    assert(all.take(i as int) =~= all);
    out
}

// ---------------------------------------------------------------------------
// Selections

/// What is to be done for the selections.
#[derive(Debug, Clone, PartialEq, Eq)]
pub struct DebconfPlan {
    /// What is handed to debconf.
    pub selections: Vec<u8>,
    /// Packages to configure anew.
    pub reconfigure: Vec<String>,
    /// Packages that are there already and cannot be configured anew.
    pub unhandled: Vec<String>,
}

pub struct DebconfSpec {
    pub selections: Seq<u8>,
    pub reconfigure: Seq<Seq<char>>,
    pub unhandled: Seq<Seq<char>>,
}

impl View for DebconfPlan {
    type V = DebconfSpec;

    open spec fn view(&self) -> DebconfSpec {
        DebconfSpec {
            selections: self.selections@,
            reconfigure: texts(self.reconfigure@),
            unhandled: texts(self.unhandled@),
        }
    }
}

/// What is printed of the values under keys.
pub open spec fn shown_under(m: Seq<(Seq<char>, Val)>, list: Seq<Seq<char>>) -> Seq<Seq<char>>
    decreases list.len(),
{
    if list.len() == 0 {
        Seq::empty()
    } else {
        let before = shown_under(m, list.drop_last());
        match get(m, list.last()) {
            Some(v) => before.push(show(v)),
            None => before,
        }
    }
}

/// The text of selections: in the order of their names, with a line feed at the
/// end.
pub open spec fn selections_text(m: Seq<(Seq<char>, Val)>) -> Seq<char> {
    let text = join(shown_under(m, sorted_set(keys(m))), "\n"@);
    if ends(text, "\n"@) {
        text
    } else {
        text + "\n"@
    }
}

/// The package that a line of selections is for. A comment is for none.
pub open spec fn package_on(line: Seq<char>) -> Option<Seq<char>> {
    if starts(line, "#"@) {
        None
    } else {
        Some(head(line.take(first_of(Class::Space, line)), ":"@))
    }
}

/// The packages that lines are for and that are among others, in order.
pub open spec fn packages_on(lines: Seq<Seq<char>>, among: Seq<Seq<char>>, out: Seq<Seq<char>>) -> Seq<Seq<char>>
    decreases lines.len(),
{
    if lines.len() == 0 {
        out
    } else {
        let before = packages_on(lines.drop_last(), among, out);
        match package_on(lines.last()) {
            Some(name) => if among.contains(name) {
                with_text(before, name)
            } else {
                before
            },
            None => before,
        }
    }
}

/// The packages that selections are for and that are among others, in order.
pub open spec fn packages_in(m: Seq<(Seq<char>, Val)>, among: Seq<Seq<char>>) -> Seq<Seq<char>>
    decreases m.len(),
{
    if m.len() == 0 {
        Seq::empty()
    } else {
        packages_on(text_lines(show(m.last().1)), among, packages_in(m.drop_last(), among))
    }
}

/// Names other than one.
pub open spec fn others(names: Seq<Seq<char>>, one: Seq<char>) -> Seq<Seq<char>>
    decreases names.len(),
{
    if names.len() == 0 {
        Seq::empty()
    } else if names.last() == one {
        others(names.drop_last(), one)
    } else {
        others(names.drop_last(), one).push(names.last())
    }
}

/// Names that are one.
pub open spec fn same_names(names: Seq<Seq<char>>, one: Seq<char>) -> Seq<Seq<char>>
    decreases names.len(),
{
    if names.len() == 0 {
        Seq::empty()
    } else if names.last() == one {
        same_names(names.drop_last(), one).push(names.last())
    } else {
        same_names(names.drop_last(), one)
    }
}

/// The packages that lines are for, behind others.
pub open spec fn names_on(lines: Seq<Seq<char>>, out: Seq<Seq<char>>) -> Seq<Seq<char>>
    decreases lines.len(),
{
    if lines.len() == 0 {
        out
    } else {
        let before = names_on(lines.drop_last(), out);
        match package_on(lines.last()) {
            Some(name) => before.push(name),
            None => before,
        }
    }
}

/// The packages that selections are for.
pub open spec fn names_in(m: Seq<(Seq<char>, Val)>) -> Seq<Seq<char>>
    decreases m.len(),
{
    if m.len() == 0 {
        Seq::empty()
    } else {
        names_on(text_lines(show(m.last().1)), names_in(m.drop_last()))
    }
}

fn add_names(text: &str, out: &mut Vec<String>)
    ensures
        texts(final(out)@) == names_on(text_lines(text@), texts(old(out)@)),
{
    broadcast use texts_push;
    let lines = text_lines_of(text);
    let ghost all = texts(lines@);
    let ghost first = texts(out@);
    let mut i: usize = 0;
    assert(all.take(0) =~= Seq::empty());
    while i < lines.len()
        invariant
            i <= lines@.len(),
            all == texts(lines@),
            texts(out@) == names_on(all.take(i as int), first),
        decreases lines.len() - i,
    {
        assert(all[i as int] == lines@[i as int]@);
        assert(all.take(i + 1).drop_last() =~= all.take(i as int));
        if let Some(name) = package_on_line(lines[i].as_str()) {
            out.push(name);
        }
        i += 1;
    }
    assert(all.take(i as int) =~= all);
}

fn names_of(m: &Object) -> (r: Vec<String>)
    ensures
        texts(r@) == names_in(m@),
{
    let mut out: Vec<String> = Vec::new();
    let mut i: usize = 0;
    assert(texts(out@) =~= names_in(m@.take(0)));
    while i < m.len()
        invariant
            i <= m@.len(),
            texts(out@) == names_in(m@.take(i as int)),
        decreases m@.len() - i,
    {
        add_names(py_str(m.value_at(i)).as_str(), &mut out);
        i += 1;
        assert(m@.take(i as int).drop_last() =~= m@.take(i - 1));
    }
    assert(m@.take(i as int) =~= m@);
    out
}

/// A line for each package that is configured anew.
pub open spec fn unconfiguring_told<H: Host>(m: Site<H>, names: Seq<Seq<char>>) -> Site<H>
    decreases names.len(),
{
    if names.len() == 0 {
        m
    } else {
        unconfiguring_told::<H>(logged::<H>(m, "unconfiguring "@ + names[0]), names.skip(1))
    }
}

fn tell_unconfiguring<H: Host>(names: &Vec<String>, host: &mut H)
    ensures
        final(host).machine() == unconfiguring_told::<H>(old(host).machine(), texts(names@)),
{
    let ghost all = texts(names@);
    let mut i: usize = 0;
    assert(all.skip(0) =~= all);
    while i < names.len()
        invariant
            i <= names@.len(),
            all == texts(names@),
            unconfiguring_told::<H>(host.machine(), all.skip(i as int)) == unconfiguring_told::<H>(
                old(host).machine(),
                all,
            ),
        decreases names.len() - i,
    {
        assert(all.skip(i as int)[0] == names@[i as int]@);
        assert(all.skip(i as int).skip(1) =~= all.skip(i + 1));
        log_debug(host, cat2("unconfiguring ", names[i].as_str()).as_str());
        i += 1;
    }
}

/// The lines that are written about the selections of a mapping: the packages they
/// are for, and which of them are configured anew. Those for which that cannot be
/// done are warned of.
pub open spec fn selections_told<H: Host>(m: Site<H>, selections: Seq<(Seq<char>, Val)>, installed: Seq<Seq<char>>) -> Site<
    H,
> {
    let m1 = logged::<H>(m, "pkgs_cfgd: "@ + set_repr(distinct(names_in(selections))));
    let known = same_names(packages_in(selections, installed), "cloud-init"@);
    let unknown = others(packages_in(selections, installed), "cloud-init"@);
    if known.len() == 0 && unknown.len() == 0 {
        logged::<H>(m1, "no need for reconfig"@)
    } else {
        let m2 = unconfiguring_told::<H>(m1, known);
        if unknown.len() == 0 {
            m2
        } else {
            warned::<H>(
                m2,
                "The following packages were installed and preseeded, but cannot be unconfigured: "@ + list_repr(
                    unknown,
                ),
            )
        }
    }
}

/// The lines that are written when it is decided what to do for the selections of a
/// configuration.
pub open spec fn plan_told<H: Host>(m: Site<H>, cfg: Seq<(Seq<char>, Val)>, installed: Seq<Seq<char>>) -> Site<H> {
    match get(cfg, "debconf_selections"@) {
        None => logged::<H>(m, "debconf_selections was not set in config"@),
        Some(v) => if !truthy(v) {
            logged::<H>(m, "debconf_selections was not set in config"@)
        } else {
            match v {
                Val::Object(selections) => selections_told::<H>(m, selections, installed),
                _ => m,
            }
        },
    }
}

/// What is to be done for the selections of a configuration.
pub open spec fn debconf_plan(cfg: Seq<(Seq<char>, Val)>, installed: Seq<Seq<char>>) -> Result<
    Option<DebconfSpec>,
    Seq<char>,
> {
    match get(cfg, "debconf_selections"@) {
        None => Ok(None),
        Some(v) => if !truthy(v) {
            Ok(None)
        } else {
            match v {
                Val::Object(m) => Ok(
                    Some(
                        DebconfSpec {
                            selections: encode_utf8(selections_text(m)),
                            reconfigure: same_names(packages_in(m, installed), "cloud-init"@),
                            unhandled: others(packages_in(m, installed), "cloud-init"@),
                        },
                    ),
                ),
                _ => Err("'"@ + kind_text(v) + "' object has no attribute 'keys'"@),
            }
        },
    }
}

pub open spec fn plan_result(r: Result<Option<DebconfPlan>, String>) -> Result<Option<DebconfSpec>, Seq<char>> {
    match r {
        Ok(Some(p)) => Ok(Some(p@)),
        Ok(None) => Ok(None),
        Err(e) => Err(e@),
    }
}

fn sorted_keys(m: &Object) -> (r: Vec<String>)
    ensures
        texts(r@) == sorted_set(keys(m@)),
{
    let ghost all = keys(m@);
    let mut out: Vec<String> = Vec::new();
    let mut i: usize = 0;
    assert(texts(out@) =~= sorted_set(all.take(0)));
    while i < m.len()
        invariant
            i <= m@.len(),
            all == keys(m@),
            texts(out@) == sorted_set(all.take(i as int)),
        decreases m@.len() - i,
    {
        insert_text(&mut out, m.key_at(i).as_str());
        i += 1;
        assert(all.take(i as int).drop_last() =~= all.take(i - 1));
        assert(all.take(i as int).last() == m@[i - 1].0);
    }
    assert(all.take(i as int) =~= all);
    out
}

fn shown_under_of(m: &Object, list: &Vec<String>) -> (r: Vec<String>)
    ensures
        texts(r@) == shown_under(m@, texts(list@)),
{
    let ghost all = texts(list@);
    let mut out: Vec<String> = Vec::new();
    let mut i: usize = 0;
    assert(texts(out@) =~= shown_under(m@, all.take(0)));
    while i < list.len()
        invariant
            i <= list@.len(),
            all == texts(list@),
            texts(out@) == shown_under(m@, all.take(i as int)),
        decreases list.len() - i,
    {
        assert(all[i as int] == list@[i as int]@);
        assert(all.take(i + 1).drop_last() =~= all.take(i as int));
        if let Some(v) = m.get(list[i].as_str()) {
            let ghost before = texts(out@);
            out.push(py_str(v));
            assert(texts(out@) =~= before.push(show(v@)));
        }
        i += 1;
    }
    assert(all.take(i as int) =~= all);
    out
}

fn package_on_line(line: &str) -> (r: Option<String>)
    ensures
        crate::text::opt_text(r) == package_on(line@),
{
    if starts_with(line, "#") {
        return None;
    }
    let a = chars_of(line);
    assert(a@.skip(0) =~= a@);
    let end = first_at(Class::Space, &a, 0);
    proof {
        first_of_bounds(Class::Space, line@);
    }
    let word = slice_text(&a, 0, end);
    assert(word@ =~= line@.take(first_of(Class::Space, line@)));
    Some(head_of(word.as_str(), ":"))
}

fn add_packages(text: &str, among: &Vec<String>, out: &mut Vec<String>)
    ensures
        texts(final(out)@) == packages_on(text_lines(text@), texts(among@), texts(old(out)@)),
{
    let lines = text_lines_of(text);
    let ghost all = texts(lines@);
    let ghost first = texts(out@);
    let mut i: usize = 0;
    assert(all.take(0) =~= Seq::empty());
    while i < lines.len()
        invariant
            i <= lines@.len(),
            all == texts(lines@),
            texts(out@) == packages_on(all.take(i as int), texts(among@), first),
        decreases lines.len() - i,
    {
        assert(all[i as int] == lines@[i as int]@);
        assert(all.take(i + 1).drop_last() =~= all.take(i as int));
        if let Some(name) = package_on_line(lines[i].as_str()) {
            if has_text(among, name.as_str()) {
                insert_text(out, name.as_str());
            }
        }
        i += 1;
    }
    assert(all.take(i as int) =~= all);
}

fn packages_of(m: &Object, among: &Vec<String>) -> (r: Vec<String>)
    ensures
        texts(r@) == packages_in(m@, texts(among@)),
{
    let mut out: Vec<String> = Vec::new();
    let mut i: usize = 0;
    assert(texts(out@) =~= packages_in(m@.take(0), texts(among@)));
    while i < m.len()
        invariant
            i <= m@.len(),
            texts(out@) == packages_in(m@.take(i as int), texts(among@)),
        decreases m@.len() - i,
    {
        add_packages(py_str(m.value_at(i)).as_str(), among, &mut out);
        i += 1;
        assert(m@.take(i as int).drop_last() =~= m@.take(i - 1));
    }
    assert(m@.take(i as int) =~= m@);
    out
}

fn part(names: Vec<String>) -> (r: (Vec<String>, Vec<String>))
    ensures
        texts(r.0@) == same_names(texts(names@), "cloud-init"@),
        texts(r.1@) == others(texts(names@), "cloud-init"@),
{
    let ghost all = texts(names@);
    let mut known: Vec<String> = Vec::new();
    let mut unknown: Vec<String> = Vec::new();
    let mut i: usize = 0;
    assert(texts(known@) =~= same_names(all.take(0), "cloud-init"@));
    assert(texts(unknown@) =~= others(all.take(0), "cloud-init"@));
    while i < names.len()
        invariant
            i <= names@.len(),
            all == texts(names@),
            texts(known@) == same_names(all.take(i as int), "cloud-init"@),
            texts(unknown@) == others(all.take(i as int), "cloud-init"@),
        decreases names.len() - i,
    {
        assert(all[i as int] == names@[i as int]@);
        assert(all.take(i + 1).drop_last() =~= all.take(i as int));
        if same(names[i].as_str(), "cloud-init") {
            let ghost before = texts(known@);
            known.push(names[i].clone());
            assert(texts(known@) =~= before.push(all[i as int]));
        } else {
            let ghost before = texts(unknown@);
            unknown.push(names[i].clone());
            assert(texts(unknown@) =~= before.push(all[i as int]));
        }
        i += 1;
    }
    assert(all.take(i as int) =~= all);
    (known, unknown)
}

pub fn plan_debconf_selections<H: Host>(cfg: &Object, installed: &Vec<String>, host: &mut H) -> (r: Result<
    Option<DebconfPlan>,
    String,
>)
    ensures
        final(host).machine() == plan_told::<H>(old(host).machine(), cfg@, texts(installed@)),
        plan_result(r) == debconf_plan(cfg@, texts(installed@)),
{
    let v = match cfg.get("debconf_selections") {
        Some(v) => v,
        None => {
            log_debug(host, "debconf_selections was not set in config");
            return Ok(None);
        },
    };
    if !py_truthy(v) {
        log_debug(host, "debconf_selections was not set in config");
        return Ok(None);
    }
    let m = match v {
        Node::Object(m) => m,
        other => return Err(cat3("'", kind_name(other).as_str(), "' object has no attribute 'keys'")),
    };
    let joined = join_with(&shown_under_of(m, &sorted_keys(m)), "\n");
    let text = if ends_with(joined.as_str(), "\n") {
        joined
    } else {
        cat2(joined.as_str(), "\n")
    };
    log_debug(host, cat2("pkgs_cfgd: ", set_repr_of(&distinct_of(&names_of(m))).as_str()).as_str());
    let (reconfigure, unhandled) = part(packages_of(m, installed));
    assert(texts(reconfigure@).len() == reconfigure@.len());
    assert(texts(unhandled@).len() == unhandled@.len());
    if reconfigure.len() == 0 && unhandled.len() == 0 {
        log_debug(host, "no need for reconfig");
    } else {
        tell_unconfiguring(&reconfigure, host);
        if unhandled.len() > 0 {
            log_warn(
                host,
                cat2(
                    "The following packages were installed and preseeded, but cannot be unconfigured: ",
                    list_repr_of(&unhandled).as_str(),
                ).as_str(),
            );
        }
    }
    Ok(Some(DebconfPlan { selections: text.as_str().as_bytes_vec(), reconfigure, unhandled }))
}

// ---------------------------------------------------------------------------
// Carrying it out

/// Removes files of a directory, as far as that can be done.
pub open spec fn files_removed<H: Host>(m: Site<H>, dir: Seq<char>, names: Seq<Seq<char>>) -> Site<H>
    decreases names.len(),
{
    if names.len() == 0 {
        m
    } else {
        files_removed::<H>(ask_remove_file::<H>(m, dir + "/"@ + names[0]).0, dir, names.skip(1))
    }
}

/// Names in a directory of a tree, as paths.
pub open spec fn paths_in(root: Seq<char>, dir: Seq<char>, names: Seq<Seq<char>>) -> Seq<Seq<char>> {
    Seq::new(names.len(), |i: int| within(root, dir + "/"@ + names[i]))
}

fn paths_of(root: &str, dir: &str, names: &Vec<String>) -> (r: Vec<String>)
    ensures
        texts(r@) == paths_in(root@, dir@, texts(names@)),
{
    broadcast use texts_push;
    let ghost want = paths_in(root@, dir@, texts(names@));
    let mut out: Vec<String> = Vec::new();
    let mut i: usize = 0;
    assert(texts(out@) =~= want.take(0));
    while i < names.len()
        invariant
            i <= names@.len(),
            want == paths_in(root@, dir@, texts(names@)),
            texts(out@) == want.take(i as int),
        decreases names.len() - i,
    {
        out.push(path_within(root, cat3(dir, "/", names[i].as_str()).as_str()));
        i += 1;
        assert(texts(names@)[i - 1] == names@[i - 1]@);
        assert(want.take(i as int) =~= want.take(i - 1).push(want[i - 1]));
    }
    assert(want.take(i as int) =~= want);
    out
}

/// Removes what the package manager wrote of cloud-init's configuration.
pub open spec fn cloud_init_cleaned<H: Host>(m: Site<H>, root: Seq<char>) -> Site<H> {
    let dir = "/etc/cloud/cloud.cfg.d"@;
    let (m1, found) = ask_list_dir::<H>(m, dir);
    let names = names_matching(found, "*dpkg*"@);
    let m2 = logged::<H>(m1, "cleaning cloud-init config from: "@ + list_repr(paths_in(root, dir, names)));
    files_removed::<H>(m2, dir, names)
}

fn clean_cloud_init<H: Host>(root: &str, host: &mut H)
    ensures
        final(host).machine() == cloud_init_cleaned::<H>(old(host).machine(), root@),
{
    let found = host.list_dir("/etc/cloud/cloud.cfg.d");
    let names = glob_names(&found, "*dpkg*");
    log_debug(
        host,
        cat2(
            "cleaning cloud-init config from: ",
            list_repr_of(&paths_of(root, "/etc/cloud/cloud.cfg.d", &names)).as_str(),
        ).as_str(),
    );
    let ghost all = texts(names@);
    let ghost m1 = host.machine();
    let mut i: usize = 0;
    assert(all.skip(0) =~= all);
    while i < names.len()
        invariant
            i <= names@.len(),
            all == texts(names@),
            files_removed::<H>(host.machine(), "/etc/cloud/cloud.cfg.d"@, all.skip(i as int)) == files_removed::<H>(
                m1,
                "/etc/cloud/cloud.cfg.d"@,
                all,
            ),
        decreases names.len() - i,
    {
        assert(all.skip(i as int)[0] == names@[i as int]@);
        assert(all.skip(i as int).skip(1) =~= all.skip(i + 1));
        let _ = host.remove_file(cat3("/etc/cloud/cloud.cfg.d", "/", names[i].as_str()).as_str());
        i += 1;
    }
}

/// Hands the selections to debconf, and has packages configured anew.
pub open spec fn plan_applied<H: Host>(m: Site<H>, plan: DebconfSpec, root: Seq<char>) -> (
    Site<H>,
    Result<(), Seq<char>>,
) {
    let (m1, set) = if is_live(root) {
        ask_feed::<H>(m, seq!["debconf-set-selections"@], plan.selections)
    } else {
        (m, Err(refusal("debconf-set-selections"@)))
    };
    match set {
        Err(e) => (m1, Err(e)),
        Ok(()) => if plan.reconfigure.len() == 0 {
            (m1, Ok(()))
        } else {
            let m2 = if plan.reconfigure.contains("cloud-init"@) {
                cloud_init_cleaned::<H>(m1, root)
            } else {
                m1
            };
            command_run::<H>(
                m2,
                seq!["dpkg-reconfigure"@, "--frontend=noninteractive"@] + plan.reconfigure,
                root,
            )
        },
    }
}

/// The packages that are installed. Of a tree that is not the machine's own none is
/// known.
pub open spec fn installed_packages_of<H: Host>(m: Site<H>, root: Seq<char>) -> (
    Site<H>,
    Result<Seq<Seq<char>>, Seq<char>>,
) {
    if !is_live(root) {
        (m, Ok(Seq::empty()))
    } else {
        let (m1, list) = ask_dpkg_list::<H>(m);
        (
            m1,
            match list {
                Err(e) => Err(e),
                Ok(text) => Ok(installed_in(text_lines(text))),
            },
        )
    }
}

fn query_installed_packages<H: Host>(root: &str, host: &mut H) -> (r: Result<Vec<String>, String>)
    ensures
        (final(host).machine(), texts_result(r)) == installed_packages_of::<H>(old(host).machine(), root@),
{
    if !same(root, "/") {
        let none: Vec<String> = Vec::new();
        assert(texts(none@) =~= Seq::empty());
        return Ok(none);
    }
    match host.dpkg_list() {
        Ok(list) => Ok(installed_packages(list.as_str())),
        Err(e) => Err(e),
    }
}

/// Does what is to be done for the selections of a configuration.
pub open spec fn selections_applied<H: Host>(m: Site<H>, cfg: Seq<(Seq<char>, Val)>, root: Seq<char>) -> (
    Site<H>,
    Result<(), Seq<char>>,
) {
    let unset = match get(cfg, "debconf_selections"@) {
        None => true,
        Some(v) => !truthy(v),
    };
    if unset {
        (logged::<H>(m, "debconf_selections was not set in config"@), Ok(()))
    } else {
        let (m1, installed) = installed_packages_of::<H>(m, root);
        match installed {
            Err(e) => (m1, Err(e)),
            Ok(installed) => {
                let m2 = plan_told::<H>(m1, cfg, installed);
                match debconf_plan(cfg, installed) {
                    Err(e) => (m2, Err(e)),
                    Ok(None) => (m2, Ok(())),
                    Ok(Some(plan)) => plan_applied::<H>(m2, plan, root),
                }
            },
        }
    }
}

/// Hands selections to debconf, and has packages configured anew.
pub fn apply_plan<H: Host>(plan: &DebconfPlan, root: &str, host: &mut H) -> (r: Result<(), String>)
    ensures
        (final(host).machine(), unit_result(r)) == plan_applied::<H>(old(host).machine(), plan@, root@),
{
    if !same(root, "/") {
        return Err(
            cat3("refusing to run ", debug_of("debconf-set-selections").as_str(), " against a rooted tree"),
        );
    }
    match host.feed(&argv1("debconf-set-selections"), &plan.selections) {
        Ok(()) => {},
        Err(e) => return Err(e),
    }
    if plan.reconfigure.len() == 0 {
        return Ok(());
    }
    if has_text(&plan.reconfigure, "cloud-init") {
        clean_cloud_init(root, host);
    }
    let mut argv = argv2("dpkg-reconfigure", "--frontend=noninteractive");
    let ghost base = texts(argv@);
    let ghost all = texts(plan.reconfigure@);
    let mut i: usize = 0;
    assert(texts(argv@) =~= base + all.take(0));
    while i < plan.reconfigure.len()
        invariant
            i <= plan.reconfigure@.len(),
            all == texts(plan.reconfigure@),
            texts(argv@) == base + all.take(i as int),
        decreases plan.reconfigure.len() - i,
    {
        let ghost before = texts(argv@);
        assert(all[i as int] == plan.reconfigure@[i as int]@);
        argv.push(plan.reconfigure[i].clone());
        assert(texts(argv@) =~= before.push(all[i as int]));
        i += 1;
        assert(all.take(i as int) =~= all.take(i - 1).push(all[i - 1]));
        assert(texts(argv@) =~= base + all.take(i as int));
    }
    assert(all.take(i as int) =~= all);
    run_command(&argv, root, host)
}

pub fn apply_debconf_selections<H: Host>(cfg: &Object, root: &str, host: &mut H) -> (r: Result<(), String>)
    ensures
        (final(host).machine(), unit_result(r)) == selections_applied::<H>(old(host).machine(), cfg@, root@),
{
    let unset = match cfg.get("debconf_selections") {
        Some(v) => !py_truthy(v),
        None => true,
    };
    if unset {
        log_debug(host, "debconf_selections was not set in config");
        return Ok(());
    }
    let installed = match query_installed_packages(root, host) {
        Ok(installed) => installed,
        Err(e) => return Err(e),
    };
    match plan_debconf_selections(cfg, &installed, host) {
        Ok(Some(plan)) => apply_plan(&plan, root, host),
        Ok(None) => Ok(()),
        Err(e) => Err(e),
    }
}

// ---------------------------------------------------------------------------
// Laws

/// For a tree that is not the machine's own nothing is handed to debconf, and
/// nothing is removed.
pub proof fn rooted_tree_takes_no_selections<H: Host>(m: Site<H>, plan: DebconfSpec, root: Seq<char>)
    requires
        !is_live(root),
    ensures
        plan_applied::<H>(m, plan, root) == (m, Err::<(), Seq<char>>(refusal("debconf-set-selections"@))),
{
}

/// Selections end with a line feed.
pub proof fn selections_end_a_line(m: Seq<(Seq<char>, Val)>)
    ensures
        ends(selections_text(m), "\n"@),
{
    let text = join(shown_under(m, sorted_set(keys(m))), "\n"@);
    if !ends(text, "\n"@) {
        let whole = text + "\n"@;
        assert(whole.subrange(text.len() as int, whole.len() as int) =~= "\n"@);
    }
}

}
