//! Keys, further sources, and the packages that both need.

use vstd::prelude::*;

use crate::cc::apt_configure::host::{
    ask_dearmor, ask_getkeybyid, ask_render, ask_which, log_debug, log_warn, logged, object_result, warned, Host, Site,
    Step, StepSpec,
};
use crate::order::{insert_text, with_text};
use crate::pattern::{found, pattern_found};
use crate::show::{is_false, kind_name, kind_text, py_str, py_truthy, repr, repr_of, show, switched_off, truthy};
use crate::text::{
    cat2, cat3, contains, ends, ends_with, has_text, holds, opt_text, rsplit_at, rsplit_once, same, split, split_on,
    starts, starts_with, texts,
};
use crate::value::{copy_values, get, put, vals, Node, Object, Val};

verus! {

// ---------------------------------------------------------------------------
// Names of key files

/// The last part of a path that names something.
pub open spec fn last_part(parts: Seq<Seq<char>>) -> Seq<char>
    decreases parts.len(),
{
    if parts.len() == 0 {
        Seq::empty()
    } else if parts.last().len() == 0 || parts.last() == "."@ {
        last_part(parts.drop_last())
    } else {
        parts.last()
    }
}

/// The name of the file that a path leads to, without what stands behind its last
/// point. A point at the front belongs to the name.
pub open spec fn stem(path: Seq<char>) -> Seq<char> {
    let name = last_part(split(path, "/"@));
    if name == ".."@ {
        Seq::empty()
    } else {
        match rsplit_once(name, '.') {
            Some((before, _)) => if before.len() > 0 {
                before
            } else {
                name
            },
            None => name,
        }
    }
}

pub fn path_stem(value: &str) -> (r: String)
    ensures
        r@ == stem(value@),
{
    proof {
        reveal_strlit("/");
    }
    let parts = split_on(value, "/");
    let ghost all = texts(parts@);
    let mut n: usize = parts.len();
    assert(all.take(n as int) =~= all);
    let mut name = String::new();
    assert(name@ =~= Seq::empty());
    while n > 0
        invariant_except_break
            name@ =~= Seq::empty(),
        invariant
            n <= parts@.len(),
            all == texts(parts@),
            last_part(all.take(n as int)) == last_part(all),
        ensures
            name@ == last_part(all),
        decreases n,
    {
        let part = parts[n - 1].as_str();
        assert(all.take(n as int).last() == part@);
        assert(all.take(n as int).drop_last() =~= all.take(n - 1));
        if !part.is_empty() && !same(part, ".") {
            name = part.to_owned();
            break;
        }
        n -= 1;
    }
    if same(name.as_str(), "..") {
        let none = String::new();
        assert(none@ =~= Seq::empty());
        return none;
    }
    match rsplit_at(name.as_str(), '.') {
        Some((before, _)) => if before.as_str().is_empty() {
            name
        } else {
            before
        },
        None => name,
    }
}

// ---------------------------------------------------------------------------
// Placing a key

/// Where a key is put.
pub open spec fn key_path(name: Seq<char>, hardened: bool) -> Seq<char> {
    (if hardened {
        "/etc/apt/cloud-init.gpg.d/"@
    } else {
        "/etc/apt/trusted.gpg.d/"@
    }) + name + ".gpg"@
}

/// Puts a key in its binary form where it belongs; the path, or that of nothing
/// where the key has no name or no such form.
pub open spec fn key_added<H: Host>(
    m: Site<H>,
    name: Seq<char>,
    data: Seq<char>,
    hardened: bool,
    steps: Seq<StepSpec>,
) -> (Site<H>, Seq<StepSpec>, Seq<char>) {
    if name.len() == 0 {
        (warned::<H>(m, "Unknown filename, failed to add key: \""@ + data + "\""@), steps, "/dev/null"@)
    } else {
        let (m1, bytes) = ask_dearmor::<H>(m, data);
        match bytes {
            Err(_) => (warned::<H>(m1, "Gpg error, failed to add key: "@ + data), steps, "/dev/null"@),
            Ok(content) => (
                m1,
                steps.push(StepSpec::WriteKey { path: key_path(name, hardened), content }),
                key_path(name, hardened),
            ),
        }
    }
}

/// Steps.
pub open spec fn step_specs(v: Seq<Step>) -> Seq<StepSpec> {
    Seq::new(v.len(), |i: int| v[i]@)
}

fn push_step(steps: &mut Vec<Step>, step: Step)
    ensures
        step_specs(final(steps)@) == step_specs(old(steps)@).push(step@),
{
    let ghost before = step_specs(steps@);
    let ghost x = step@;
    steps.push(step);
    assert(step_specs(steps@) =~= before.push(x));
}

fn apt_key_add<H: Host>(host: &mut H, output_file: &str, data: &str, hardened: bool, steps: &mut Vec<Step>) -> (r: String)
    ensures
        (final(host).machine(), step_specs(final(steps)@), r@) == key_added::<H>(
            old(host).machine(),
            output_file@,
            data@,
            hardened,
            step_specs(old(steps)@),
        ),
{
    if output_file.is_empty() {
        log_warn(host, cat3("Unknown filename, failed to add key: \"", data, "\"").as_str());
        return "/dev/null".to_owned();
    }
    let directory = if hardened {
        "/etc/apt/cloud-init.gpg.d/"
    } else {
        "/etc/apt/trusted.gpg.d/"
    };
    match host.dearmor(data) {
        Ok(content) => {
            let path = cat3(directory, output_file, ".gpg");
            push_step(steps, Step::WriteKey { path: path.clone(), content });
            path
        },
        Err(_) => {
            log_warn(host, cat2("Gpg error, failed to add key: ", data).as_str());
            "/dev/null".to_owned()
        },
    }
}

/// The key server that an entry names, or the usual one.
pub open spec fn key_server(ent: Seq<(Seq<char>, Val)>) -> Seq<char> {
    match get(ent, "keyserver"@) {
        Some(v) => show(v),
        None => "keyserver.ubuntu.com"@,
    }
}

/// An entry with the key that its identifier stands for, if it names only that.
pub open spec fn key_fetched<H: Host>(m: Site<H>, ent: Seq<(Seq<char>, Val)>) -> (
    Site<H>,
    Result<Seq<(Seq<char>, Val)>, Seq<char>>,
) {
    match (get(ent, "keyid"@), get(ent, "key"@)) {
        (Some(id), None) => {
            let (m1, key) = ask_getkeybyid::<H>(m, show(id), key_server(ent));
            (
                m1,
                match key {
                    Err(e) => Err(e),
                    Ok(Some(key)) => Ok(put(ent, "key"@, Val::Text(key))),
                    Ok(None) => Ok(put(ent, "key"@, Val::Null)),
                },
            )
        },
        _ => (m, Ok(ent)),
    }
}

/// The name of the file for an entry's key.
pub open spec fn key_name(ent: Seq<(Seq<char>, Val)>, name: Option<Seq<char>>) -> Result<Seq<char>, Seq<char>> {
    match (name, get(ent, "filename"@)) {
        (Some(name), _) => Ok(name),
        (None, Some(v)) => Ok(show(v)),
        (None, None) => Err("'filename'"@),
    }
}

/// An entry with its key fetched and put in place, and where that is.
pub open spec fn key_placed<H: Host>(
    m: Site<H>,
    ent: Seq<(Seq<char>, Val)>,
    hardened: bool,
    name: Option<Seq<char>>,
    steps: Seq<StepSpec>,
) -> (Site<H>, Seq<(Seq<char>, Val)>, Seq<StepSpec>, Result<Option<Seq<char>>, Seq<char>>) {
    let (m1, fetched) = key_fetched::<H>(m, ent);
    match fetched {
        Err(e) => (m1, ent, steps, Err(e)),
        Ok(ent1) => match get(ent1, "key"@) {
            None => (m1, ent1, steps, Ok(None)),
            Some(key) => match key_name(ent1, name) {
                Err(e) => (m1, ent1, steps, Err(e)),
                Ok(file) => {
                    let data = match key {
                        Val::Text(s) => s,
                        _ => Seq::empty(),
                    };
                    let m2 = logged::<H>(m1, "Adding key:\n'"@ + data + "'"@);
                    let (m3, steps1, path) = key_added::<H>(m2, stem(file), data, hardened, steps);
                    (m3, ent1, steps1, Ok(Some(path)))
                },
            },
        },
    }
}

fn fetch_key<H: Host>(ent: &mut Object, host: &mut H) -> (r: Result<(), String>)
    ensures
        ({
            let (m, fetched) = key_fetched::<H>(old(host).machine(), old(ent)@);
            &&& final(host).machine() == m
            &&& match r {
                Ok(()) => fetched == Ok::<Seq<(Seq<char>, Val)>, Seq<char>>(final(ent)@),
                Err(e) => fetched == Err::<Seq<(Seq<char>, Val)>, Seq<char>>(e@) && final(ent)@ == old(ent)@,
            }
        }),
{
    if ent.contains_key("key") {
        return Ok(());
    }
    let keyid = match ent.get("keyid") {
        Some(id) => py_str(id),
        None => return Ok(()),
    };
    let keyserver = match ent.get("keyserver") {
        Some(v) => py_str(v),
        None => "keyserver.ubuntu.com".to_owned(),
    };
    match host.getkeybyid(keyid.as_str(), keyserver.as_str()) {
        Ok(Some(key)) => {
            ent.insert("key", Node::Text(key));
            Ok(())
        },
        Ok(None) => {
            ent.insert("key", Node::Null);
            Ok(())
        },
        Err(e) => Err(e),
    }
}

pub open spec fn opt_name(o: Option<&str>) -> Option<Seq<char>> {
    match o {
        Some(s) => Some(s@),
        None => None,
    }
}

pub open spec fn path_result(r: Result<Option<String>, String>) -> Result<Option<Seq<char>>, Seq<char>> {
    match r {
        Ok(o) => Ok(opt_text(o)),
        Err(e) => Err(e@),
    }
}

pub fn add_apt_key<H: Host>(
    ent: &mut Object,
    host: &mut H,
    hardened: bool,
    file_name: Option<&str>,
    steps: &mut Vec<Step>,
) -> (r: Result<Option<String>, String>)
    ensures
        (final(host).machine(), final(ent)@, step_specs(final(steps)@), path_result(r)) == key_placed::<H>(
            old(host).machine(),
            old(ent)@,
            hardened,
            opt_name(file_name),
            step_specs(old(steps)@),
        ),
{
    match fetch_key(ent, host) {
        Ok(()) => {},
        Err(e) => return Err(e),
    }
    let data = match ent.get("key") {
        None => return Ok(None),
        Some(Node::Text(s)) => s.clone(),
        Some(_) => {
            let none = String::new();
            assert(none@ =~= Seq::empty());
            none
        },
    };
    let name = match file_name {
        Some(name) => name.to_owned(),
        None => match ent.get("filename") {
            Some(v) => py_str(v),
            None => return Err("'filename'".to_owned()),
        },
    };
    log_debug(host, cat3("Adding key:\n'", data.as_str(), "'").as_str());
    Ok(Some(apt_key_add(host, path_stem(name.as_str()).as_str(), data.as_str(), hardened, steps)))
}

// ---------------------------------------------------------------------------
// The keys of mirrors

/// What comes of the keys of a kind of mirror: the entries with them, the steps,
/// and the parameters of the template.
pub open spec fn mirrors_keyed<H: Host>(
    m: Site<H>,
    items: Seq<Val>,
    kind: Seq<char>,
    steps: Seq<StepSpec>,
    keys: Seq<(Seq<char>, Val)>,
) -> (Site<H>, Seq<Val>, Seq<StepSpec>, Seq<(Seq<char>, Val)>, Result<(), Seq<char>>)
    decreases items.len(),
{
    if items.len() == 0 {
        (m, Seq::empty(), steps, keys, Ok(()))
    } else {
        match items[0] {
            Val::Object(ent) => {
                let (m1, ent1, steps1, placed) = key_placed::<H>(m, ent, false, Some(kind), steps);
                match placed {
                    Err(e) => (m1, seq![Val::Object(ent1)] + items.skip(1), steps1, keys, Err(e)),
                    Ok(path) => {
                        let keys1 = match path {
                            Some(p) => if p.len() > 0 {
                                put(keys, kind + "_key"@, Val::Text(p))
                            } else {
                                keys
                            },
                            None => keys,
                        };
                        let (m2, rest, steps2, keys2, r) = mirrors_keyed::<H>(m1, items.skip(1), kind, steps1, keys1);
                        (m2, seq![Val::Object(ent1)] + rest, steps2, keys2, r)
                    },
                }
            },
            other => {
                let (m2, rest, steps2, keys2, r) = mirrors_keyed::<H>(m, items.skip(1), kind, steps, keys);
                (m2, seq![other] + rest, steps2, keys2, r)
            },
        }
    }
}

/// Entries put before what comes of the others.
pub open spec fn after_entries<H: Host>(
    done: Seq<Val>,
    rest: (Site<H>, Seq<Val>, Seq<StepSpec>, Seq<(Seq<char>, Val)>, Result<(), Seq<char>>),
) -> (Site<H>, Seq<Val>, Seq<StepSpec>, Seq<(Seq<char>, Val)>, Result<(), Seq<char>>) {
    (rest.0, done + rest.1, rest.2, rest.3, rest.4)
}

fn key_mirrors<H: Host>(
    items: &Vec<Node>,
    kind: &str,
    host: &mut H,
    steps: &mut Vec<Step>,
    keys: &mut Object,
) -> (r: (Vec<Node>, Result<(), String>))
    ensures
        (
            final(host).machine(),
            vals(r.0@),
            step_specs(final(steps)@),
            final(keys)@,
            crate::cc::unit_result(r.1),
        ) == mirrors_keyed::<H>(
            old(host).machine(),
            vals(items@),
            kind@,
            step_specs(old(steps)@),
            old(keys)@,
        ),
{
    let ghost all = vals(items@);
    let ghost whole = mirrors_keyed::<H>(host.machine(), all, kind@, step_specs(steps@), keys@);
    let mut done: Vec<Node> = Vec::new();
    let mut i: usize = 0;
    assert(all.skip(0) =~= all);
    assert(vals(done@) =~= Seq::empty());
    assert(Seq::empty() + whole.1 =~= whole.1);
    while i < items.len()
        invariant
            i <= items@.len(),
            all == vals(items@),
            whole == mirrors_keyed::<H>(
                old(host).machine(),
                all,
                kind@,
                step_specs(old(steps)@),
                old(keys)@,
            ),
            after_entries::<H>(
                vals(done@),
                mirrors_keyed::<H>(host.machine(), all.skip(i as int), kind@, step_specs(steps@), keys@),
            ) == whole,
        decreases items.len() - i,
    {
        assert(all.skip(i as int)[0] == items@[i as int]@);
        assert(all.skip(i as int).skip(1) =~= all.skip(i + 1));
        let ghost before = vals(done@);
        let ghost here = mirrors_keyed::<H>(host.machine(), all.skip(i as int), kind@, step_specs(steps@), keys@);
        match &items[i] {
            Node::Object(ent) => {
                let mut ent = ent.clone();
                let placed = add_apt_key(&mut ent, host, false, Some(kind), steps);
                let ghost e1 = Val::Object(ent@);
                done.push(Node::Object(ent));
                assert(vals(done@) =~= before.push(e1));
                match placed {
                    Err(e) => {
                        let mut k: usize = i + 1;
                        let ghost head = vals(done@);
                        assert(all.subrange(i + 1, i + 1) =~= Seq::empty());
                        assert(vals(done@) =~= head + all.subrange(i + 1, i + 1));
                        while k < items.len()
                            invariant
                                i < k <= items@.len(),
                                all == vals(items@),
                                vals(done@) == head + all.subrange(i + 1, k as int),
                            decreases items.len() - k,
                        {
                            let ghost sofar = vals(done@);
                            assert(all[k as int] == items@[k as int]@);
                            done.push(items[k].clone());
                            assert(vals(done@) =~= sofar.push(all[k as int]));
                            k += 1;
                            assert(vals(done@) =~= head + all.subrange(i + 1, k as int));
                        }
                        assert(all.subrange(i + 1, k as int) =~= all.skip(i + 1));
                        assert(vals(done@) =~= before + (seq![e1] + all.skip(i + 1)));
                        return (done, Err(e));
                    },
                    Ok(path) => {
                        if let Some(path) = path {
                            if !path.as_str().is_empty() {
                                keys.insert(cat2(kind, "_key").as_str(), Node::Text(path));
                            }
                        }
                        proof {
                            let rest = mirrors_keyed::<H>(
                                host.machine(),
                                all.skip(i + 1),
                                kind@,
                                step_specs(steps@),
                                keys@,
                            );
                            assert(here.1 == seq![e1] + rest.1);
                            assert(before.push(e1) + rest.1 =~= before + (seq![e1] + rest.1));
                        }
                    },
                }
            },
            other => {
                done.push(other.clone());
                assert(vals(done@) =~= before.push(other@));
                proof {
                    let rest = mirrors_keyed::<H>(
                        host.machine(),
                        all.skip(i + 1),
                        kind@,
                        step_specs(steps@),
                        keys@,
                    );
                    assert(before.push(other@) + rest.1 =~= before + (seq![other@] + rest.1));
                }
            },
        }
        i += 1;
    }
    assert(vals(done@) + Seq::<Val>::empty() =~= vals(done@));
    (done, Ok(()))
}

/// The keys of one kind of mirror, where the configuration lists any.
pub open spec fn kind_keyed<H: Host>(
    m: Site<H>,
    cfg: Seq<(Seq<char>, Val)>,
    kind: Seq<char>,
    steps: Seq<StepSpec>,
    keys: Seq<(Seq<char>, Val)>,
) -> (Site<H>, Seq<(Seq<char>, Val)>, Seq<StepSpec>, Seq<(Seq<char>, Val)>, Result<(), Seq<char>>) {
    match get(cfg, kind) {
        Some(Val::Array(items)) => {
            let (m1, after, steps1, keys1, r) = mirrors_keyed::<H>(m, items, kind, steps, keys);
            (m1, put(cfg, kind, Val::Array(after)), steps1, keys1, r)
        },
        _ => (m, cfg, steps, keys, Ok(())),
    }
}

fn key_kind<H: Host>(cfg: &mut Object, kind: &str, host: &mut H, steps: &mut Vec<Step>, keys: &mut Object) -> (r: Result<
    (),
    String,
>)
    ensures
        (
            final(host).machine(),
            final(cfg)@,
            step_specs(final(steps)@),
            final(keys)@,
            crate::cc::unit_result(r),
        ) == kind_keyed::<H>(old(host).machine(), old(cfg)@, kind@, step_specs(old(steps)@), old(keys)@),
{
    let items = match cfg.get(kind) {
        Some(Node::Array(items)) => copy_values(items),
        _ => return Ok(()),
    };
    let (after, r) = key_mirrors(&items, kind, host, steps, keys);
    cfg.insert(kind, Node::Array(after));
    r
}

/// The keys of all mirrors.
pub open spec fn all_keyed<H: Host>(m: Site<H>, cfg: Seq<(Seq<char>, Val)>, steps: Seq<StepSpec>) -> (
    Site<H>,
    Seq<(Seq<char>, Val)>,
    Seq<StepSpec>,
    Result<Seq<(Seq<char>, Val)>, Seq<char>>,
) {
    let (m1, cfg1, steps1, keys1, r1) = kind_keyed::<H>(m, cfg, "primary"@, steps, Seq::empty());
    match r1 {
        Err(e) => (m1, cfg1, steps1, Err(e)),
        Ok(()) => {
            let (m2, cfg2, steps2, keys2, r2) = kind_keyed::<H>(m1, cfg1, "security"@, steps1, keys1);
            (
                m2,
                cfg2,
                steps2,
                match r2 {
                    Err(e) => Err(e),
                    Ok(()) => Ok(keys2),
                },
            )
        },
    }
}

pub fn add_mirror_keys<H: Host>(cfg: &mut Object, host: &mut H, steps: &mut Vec<Step>) -> (r: Result<Object, String>)
    ensures
        (final(host).machine(), final(cfg)@, step_specs(final(steps)@), object_result(r)) == all_keyed::<H>(
            old(host).machine(),
            old(cfg)@,
            step_specs(old(steps)@),
        ),
{
    let mut keys = Object::new();
    match key_kind(cfg, "primary", host, steps, &mut keys) {
        Ok(()) => {},
        Err(e) => return Err(e),
    }
    match key_kind(cfg, "security", host, steps, &mut keys) {
        Ok(()) => Ok(keys),
        Err(e) => Err(e),
    }
}

// ---------------------------------------------------------------------------
// Packages that are needed

/// Whether an entry has a key.
pub open spec fn has_key(ent: Val) -> bool {
    ent matches Val::Object(e) && (get(e, "key"@) is Some || get(e, "keyid"@) is Some)
}

/// Whether any of several entries has a key.
pub open spec fn any_has_key(items: Seq<Val>) -> bool {
    exists|i: int| 0 <= i < items.len() && has_key(#[trigger] items[i])
}

/// Whether any entry of a kind of mirror has a key.
pub open spec fn kind_has_key(cfg: Seq<(Seq<char>, Val)>, kind: Seq<char>) -> bool {
    match get(cfg, kind) {
        Some(Val::Array(items)) => any_has_key(items),
        _ => false,
    }
}

/// A list with a command in it.
pub open spec fn requiring(list: Seq<Seq<char>>, command: Seq<char>) -> Seq<Seq<char>> {
    if list.contains(command) {
        list
    } else {
        list.push(command)
    }
}

/// Whether a source is one for the repository command. Without an expression none
/// is.
pub open spec fn is_repository(matcher: Option<Seq<char>>, source: Seq<char>) -> bool {
    match matcher {
        Some(pattern) => pattern_found(pattern, source),
        None => false,
    }
}

/// The source that an entry names, or an empty text.
pub open spec fn source_text(ent: Seq<(Seq<char>, Val)>) -> Seq<char> {
    match get(ent, "source"@) {
        Some(v) => show(v),
        None => Seq::empty(),
    }
}

/// A list with the commands that an entry needs.
pub open spec fn entry_needs(list: Seq<Seq<char>>, keyed: bool, repository: bool) -> Seq<Seq<char>> {
    let first = if keyed {
        requiring(list, "gpg"@)
    } else {
        list
    };
    if repository {
        requiring(first, "add-apt-repository"@)
    } else {
        first
    }
}

/// A list with the commands that the sources need.
pub open spec fn sources_need(
    list: Seq<Seq<char>>,
    sources: Seq<(Seq<char>, Val)>,
    matcher: Option<Seq<char>>,
) -> Seq<Seq<char>>
    decreases sources.len(),
{
    if sources.len() == 0 {
        list
    } else {
        let before = sources_need(list, sources.drop_last(), matcher);
        match sources.last().1 {
            Val::Object(ent) => entry_needs(
                before,
                has_key(sources.last().1),
                is_repository(matcher, source_text(ent)),
            ),
            _ => before,
        }
    }
}

/// The commands that a configuration needs.
pub open spec fn commands_needed(cfg: Seq<(Seq<char>, Val)>, matcher: Option<Seq<char>>) -> Seq<Seq<char>> {
    let preserve = match get(cfg, "preserve_sources_list"@) {
        Some(v) => v,
        None => Val::Bool(false),
    };
    let mirrors = if switched_off(preserve) && (kind_has_key(cfg, "primary"@) || kind_has_key(cfg, "security"@)) {
        seq!["gpg"@]
    } else {
        Seq::empty()
    };
    match get(cfg, "sources"@) {
        Some(Val::Object(sources)) => sources_need(mirrors, sources, matcher),
        _ => mirrors,
    }
}

/// The package that a command is in.
pub open spec fn package_of(command: Seq<char>) -> Seq<char> {
    if command == "gpg"@ {
        "gnupg"@
    } else {
        "software-properties-common"@
    }
}

/// The packages of the commands that are not there, in order.
pub open spec fn packages_missing<H: Host>(m: Site<H>, commands: Seq<Seq<char>>, out: Seq<Seq<char>>) -> (
    Site<H>,
    Seq<Seq<char>>,
)
    decreases commands.len(),
{
    if commands.len() == 0 {
        (m, out)
    } else {
        let (m1, there) = ask_which::<H>(m, commands[0]);
        packages_missing::<H>(
            m1,
            commands.skip(1),
            if there {
                out
            } else {
                with_text(out, package_of(commands[0]))
            },
        )
    }
}

fn entry_has_key(ent: &Object) -> (r: bool)
    ensures
        r == has_key(Val::Object(ent@)),
{
    ent.contains_key("key") || ent.contains_key("keyid")
}

fn mirrors_have_key(cfg: &Object, kind: &str) -> (r: bool)
    ensures
        r == kind_has_key(cfg@, kind@),
{
    let items = match cfg.get(kind) {
        Some(Node::Array(items)) => items,
        _ => return false,
    };
    let ghost all = vals(items@);
    let mut i: usize = 0;
    while i < items.len()
        invariant
            i <= items@.len(),
            all == vals(items@),
            get(cfg@, kind@) == Some(Val::Array(all)),
            forall|j: int| 0 <= j < i ==> !has_key(#[trigger] all[j]),
        decreases items.len() - i,
    {
        assert(all[i as int] == items@[i as int]@);
        if let Node::Object(ent) = &items[i] {
            if entry_has_key(ent) {
                assert(i < all.len() && has_key(all[i as int]));
                assert(any_has_key(all));
                return true;
            }
        }
        i += 1;
    }
    false
}

fn require(list: &mut Vec<String>, command: &str)
    ensures
        texts(final(list)@) == requiring(texts(old(list)@), command@),
{
    let ghost before = texts(list@);
    if !has_text(list, command) {
        list.push(command.to_owned());
        assert(texts(list@) =~= before.push(command@));
    }
}

/// Adds the commands that an entry needs to a list.
pub fn require_for(list: &mut Vec<String>, keyed: bool, repository: bool)
    ensures
        texts(final(list)@) == entry_needs(texts(old(list)@), keyed, repository),
{
    if keyed {
        require(list, "gpg");
    }
    if repository {
        require(list, "add-apt-repository");
    }
}

fn matches_repository(matcher: &Option<String>, source: &str) -> (r: bool)
    ensures
        r == is_repository(opt_text(*matcher), source@),
{
    match matcher {
        Some(pattern) => found(pattern.as_str(), source),
        None => false,
    }
}

fn required_commands(cfg: &Object, matcher: &Option<String>) -> (r: Vec<String>)
    ensures
        texts(r@) == commands_needed(cfg@, opt_text(*matcher)),
{
    let preserving = match cfg.get("preserve_sources_list") {
        Some(v) => !is_false(v),
        None => {
            let off = Node::Bool(false);
            !is_false(&off)
        },
    };
    let mut list: Vec<String> = Vec::new();
    if !preserving && (mirrors_have_key(cfg, "primary") || mirrors_have_key(cfg, "security")) {
        list.push("gpg".to_owned());
        assert(texts(list@) =~= seq!["gpg"@]);
    } else {
        assert(texts(list@) =~= Seq::empty());
    }
    if let Some(Node::Object(sources)) = cfg.get("sources") {
        let ghost first = texts(list@);
        let mut i: usize = 0;
        assert(sources@.take(0) =~= Seq::empty());
        while i < sources.len()
            invariant
                i <= sources@.len(),
                texts(list@) == sources_need(first, sources@.take(i as int), opt_text(*matcher)),
            decreases sources@.len() - i,
        {
            if let Node::Object(ent) = sources.value_at(i) {
                let source = match ent.get("source") {
                    Some(v) => py_str(v),
                    None => {
                        let none = String::new();
                        assert(none@ =~= Seq::empty());
                        none
                    },
                };
                require_for(&mut list, entry_has_key(ent), matches_repository(matcher, source.as_str()));
            }
            i += 1;
            assert(sources@.take(i as int).drop_last() =~= sources@.take(i - 1));
        }
        assert(sources@.take(i as int) =~= sources@);
    }
    list
}

pub fn ensure_dependencies<H: Host>(cfg: &Object, aa_repo_match: &Option<String>, host: &mut H) -> (r: Vec<String>)
    ensures
        (final(host).machine(), texts(r@)) == packages_missing::<H>(
            old(host).machine(),
            commands_needed(cfg@, opt_text(*aa_repo_match)),
            Seq::empty(),
        ),
{
    let commands = required_commands(cfg, aa_repo_match);
    let ghost all = texts(commands@);
    let mut out: Vec<String> = Vec::new();
    let mut i: usize = 0;
    assert(all.skip(0) =~= all);
    assert(texts(out@) =~= Seq::empty());
    while i < commands.len()
        invariant
            i <= commands@.len(),
            all == texts(commands@),
            packages_missing::<H>(host.machine(), all.skip(i as int), texts(out@)) == packages_missing::<H>(
                old(host).machine(),
                all,
                Seq::empty(),
            ),
        decreases commands.len() - i,
    {
        let command = commands[i].as_str();
        assert(all.skip(i as int)[0] == command@);
        assert(all.skip(i as int).skip(1) =~= all.skip(i + 1));
        if !host.which(command) {
            if same(command, "gpg") {
                insert_text(&mut out, "gnupg");
            } else {
                insert_text(&mut out, "software-properties-common");
            }
        }
        i += 1;
    }
    out
}

// ---------------------------------------------------------------------------
// Further sources

/// An entry with the name of its file, which is that of the entry where it gives
/// none.
pub open spec fn entry_named(ent: Seq<(Seq<char>, Val)>, name: Seq<char>) -> Seq<(Seq<char>, Val)> {
    match get(ent, "filename"@) {
        Some(_) => ent,
        None => put(ent, "filename"@, Val::Text(name)),
    }
}

/// The path of a source's file.
pub open spec fn source_path(name: Seq<char>) -> Seq<char> {
    let path = if starts(name, "/"@) {
        name
    } else {
        "/etc/apt/sources.list.d/"@ + name
    };
    if ends(path, ".list"@) {
        path
    } else {
        path + ".list"@
    }
}

/// The step for a source, which is given to the repository command or written to
/// its file.
pub open spec fn step_for(path: Seq<char>, source: Seq<char>, append: bool, repository: bool) -> StepSpec {
    if repository {
        StepSpec::AddAptRepository { source }
    } else {
        StepSpec::WriteSource { path, content: source + "\n"@, append }
    }
}

pub fn source_step(path: String, source: String, append: bool, repository: bool) -> (r: Step)
    ensures
        r@ == step_for(path@, source@, append, repository),
{
    if repository {
        Step::AddAptRepository { source }
    } else {
        Step::WriteSource { path, content: cat2(source.as_str(), "\n"), append }
    }
}

/// Whether a source is put behind what its file holds. Only a value that stands
/// for no says otherwise.
pub open spec fn appends(ent: Seq<(Seq<char>, Val)>) -> bool {
    match get(ent, "append"@) {
        Some(v) => truthy(v),
        None => true,
    }
}

/// The steps for one source, behind others, and the parameters with where its key
/// is.
pub open spec fn source_planned<H: Host>(
    m: Site<H>,
    name: Seq<char>,
    ent: Seq<(Seq<char>, Val)>,
    params: Seq<(Seq<char>, Val)>,
    matcher: Option<Seq<char>>,
    steps: Seq<StepSpec>,
) -> (Site<H>, Seq<(Seq<char>, Val)>, Result<Seq<StepSpec>, Seq<char>>) {
    let ent0 = entry_named(ent, name);
    let source = get(ent0, "source"@);
    let signed = source matches Some(v) && holds(show(v), "$KEY_FILE"@);
    let (m1, ent1, steps1, placed) = key_placed::<H>(m, ent0, signed, None, steps);
    match placed {
        Err(e) => (m1, params, Err(e)),
        Ok(key_file) => {
            let params1 = if signed {
                put(
                    params,
                    "KEY_FILE"@,
                    Val::Text(
                        match key_file {
                            Some(p) => p,
                            None => Seq::empty(),
                        },
                    ),
                )
            } else {
                params
            };
            match source {
                None => (m1, params1, Ok(steps1)),
                Some(v) => {
                    let (m2, rendered) = ask_render::<H>(m1, show(v), params1);
                    match rendered {
                        Err(e) => (m2, params1, Err(e)),
                        Ok(text) => {
                            let file = match get(ent1, "filename"@) {
                                Some(v) => show(v),
                                None => Seq::empty(),
                            };
                            (
                                m2,
                                params1,
                                Ok(
                                    steps1.push(
                                        step_for(
                                            source_path(file),
                                            text,
                                            appends(ent1),
                                            is_repository(matcher, text),
                                        ),
                                    ),
                                ),
                            )
                        },
                    }
                },
            }
        },
    }
}

/// The steps for sources, behind others.
pub open spec fn sources_planned<H: Host>(
    m: Site<H>,
    sources: Seq<(Seq<char>, Val)>,
    params: Seq<(Seq<char>, Val)>,
    matcher: Option<Seq<char>>,
    steps: Seq<StepSpec>,
) -> (Site<H>, Seq<(Seq<char>, Val)>, Result<Seq<StepSpec>, Seq<char>>)
    decreases sources.len(),
{
    if sources.len() == 0 {
        (m, params, Ok(steps.push(StepSpec::UpdatePackageSources)))
    } else {
        let m0 = logged::<H>(m, "adding source/key '"@ + repr(sources[0].1) + "'"@);
        match sources[0].1 {
            Val::Object(ent) => {
                let (m1, params1, planned) = source_planned::<H>(m0, sources[0].0, ent, params, matcher, steps);
                match planned {
                    Err(e) => (m1, params1, Err(e)),
                    Ok(steps1) => sources_planned::<H>(m1, sources.skip(1), params1, matcher, steps1),
                }
            },
            other => (
                m0,
                params,
                Err("'"@ + kind_text(other) + "' object does not support item assignment"@),
            ),
        }
    }
}

/// The steps for the sources that a configuration lists.
pub open spec fn further_sources<H: Host>(
    m: Site<H>,
    sources: Val,
    params: Seq<(Seq<char>, Val)>,
    matcher: Option<Seq<char>>,
) -> (Site<H>, Seq<(Seq<char>, Val)>, Result<Seq<StepSpec>, Seq<char>>) {
    match sources {
        Val::Object(entries) => sources_planned::<H>(m, entries, params, matcher, Seq::empty()),
        other => (m, params, Err("unknown apt format: "@ + show(other))),
    }
}

fn source_path_of(name: &str) -> (r: String)
    ensures
        r@ == source_path(name@),
{
    let path = if starts_with(name, "/") {
        name.to_owned()
    } else {
        cat2("/etc/apt/sources.list.d/", name)
    };
    if ends_with(path.as_str(), ".list") {
        path
    } else {
        cat2(path.as_str(), ".list")
    }
}

fn plan_source<H: Host>(
    name: &str,
    ent: &Object,
    host: &mut H,
    params: &mut Object,
    matcher: &Option<String>,
    steps: &mut Vec<Step>,
) -> (r: Result<(), String>)
    ensures
        ({
            let (m, p, planned) = source_planned::<H>(
                old(host).machine(),
                name@,
                ent@,
                old(params)@,
                opt_text(*matcher),
                step_specs(old(steps)@),
            );
            &&& final(host).machine() == m
            &&& final(params)@ == p
            &&& match r {
                Ok(()) => planned == Ok::<Seq<StepSpec>, Seq<char>>(step_specs(final(steps)@)),
                Err(e) => planned == Err::<Seq<StepSpec>, Seq<char>>(e@),
            }
        }),
{
    let mut ent = ent.clone();
    if !ent.contains_key("filename") {
        ent.insert("filename", Node::text(name));
    }
    let source = match ent.get("source") {
        Some(v) => Some(py_str(v)),
        None => None,
    };
    let signed = match &source {
        Some(s) => contains(s.as_str(), "$KEY_FILE"),
        None => false,
    };
    let key_file = match add_apt_key(&mut ent, host, signed, None, steps) {
        Ok(key_file) => key_file,
        Err(e) => return Err(e),
    };
    if signed {
        let path = match key_file {
            Some(p) => p,
            None => {
                let none = String::new();
                assert(none@ =~= Seq::empty());
                none
            },
        };
        params.insert("KEY_FILE", Node::Text(path));
    }
    let source = match source {
        Some(source) => source,
        None => return Ok(()),
    };
    let text = match host.render(source.as_str(), params) {
        Ok(text) => text,
        Err(e) => return Err(e),
    };
    let file = match ent.get("filename") {
        Some(v) => py_str(v),
        None => {
            let none = String::new();
            assert(none@ =~= Seq::empty());
            none
        },
    };
    let append = match ent.get("append") {
        Some(v) => py_truthy(v),
        None => true,
    };
    let repository = matches_repository(matcher, text.as_str());
    push_step(steps, source_step(source_path_of(file.as_str()), text, append, repository));
    Ok(())
}

pub open spec fn steps_result(r: Result<Vec<Step>, String>) -> Result<Seq<StepSpec>, Seq<char>> {
    match r {
        Ok(v) => Ok(step_specs(v@)),
        Err(e) => Err(e@),
    }
}

pub fn plan_apt_sources<H: Host>(
    srcdict: &Node,
    host: &mut H,
    template_params: &mut Object,
    aa_repo_match: &Option<String>,
) -> (r: Result<Vec<Step>, String>)
    ensures
        (final(host).machine(), final(template_params)@, steps_result(r)) == further_sources::<H>(
            old(host).machine(),
            srcdict@,
            old(template_params)@,
            opt_text(*aa_repo_match),
        ),
{
    let sources = match srcdict {
        Node::Object(sources) => sources,
        other => return Err(cat2("unknown apt format: ", py_str(other).as_str())),
    };
    let ghost all = sources@;
    let ghost matcher = opt_text(*aa_repo_match);
    let ghost whole = sources_planned::<H>(host.machine(), all, template_params@, matcher, Seq::empty());
    let mut steps: Vec<Step> = Vec::new();
    let mut i: usize = 0;
    assert(all.skip(0) =~= all);
    assert(step_specs(steps@) =~= Seq::empty());
    while i < sources.len()
        invariant
            i <= sources@.len(),
            all == sources@,
            matcher == opt_text(*aa_repo_match),
            whole == further_sources::<H>(
                old(host).machine(),
                srcdict@,
                old(template_params)@,
                matcher,
            ),
            sources_planned::<H>(
                host.machine(),
                all.skip(i as int),
                template_params@,
                matcher,
                step_specs(steps@),
            ) == whole,
        decreases sources@.len() - i,
    {
        assert(all.skip(i as int)[0] == all[i as int]);
        assert(all.skip(i as int).skip(1) =~= all.skip(i + 1));
        log_debug(host, cat3("adding source/key '", repr_of(sources.value_at(i)).as_str(), "'").as_str());
        match sources.value_at(i) {
            Node::Object(ent) => {
                match plan_source(
                    sources.key_at(i).as_str(),
                    ent,
                    host,
                    template_params,
                    aa_repo_match,
                    &mut steps,
                ) {
                    Ok(()) => {},
                    Err(e) => return Err(e),
                }
            },
            other => return Err(
                cat3("'", kind_name(other).as_str(), "' object does not support item assignment"),
            ),
        }
        i += 1;
    }
    push_step(&mut steps, Step::UpdatePackageSources);
    Ok(steps)
}

// ---------------------------------------------------------------------------
// Laws

/// Whether none of several steps brings the lists of packages up to date.
pub open spec fn none_updates(steps: Seq<StepSpec>) -> bool {
    forall|i: int| 0 <= i < steps.len() ==> !(#[trigger] steps[i] is UpdatePackageSources)
}

/// The steps for sources end with bringing the lists of packages up to date, and do so
/// nowhere else.
pub proof fn sources_end_with_update<H: Host>(
    m: Site<H>,
    sources: Seq<(Seq<char>, Val)>,
    params: Seq<(Seq<char>, Val)>,
    matcher: Option<Seq<char>>,
    steps: Seq<StepSpec>,
)
    requires
        none_updates(steps),
        sources_planned::<H>(m, sources, params, matcher, steps).2 is Ok,
    ensures
        ({
            let planned = sources_planned::<H>(m, sources, params, matcher, steps).2->Ok_0;
            &&& planned.len() > 0
            &&& planned.last() is UpdatePackageSources
            &&& none_updates(planned.drop_last())
        }),
    decreases sources.len(),
{
    if sources.len() == 0 {
        assert(steps.push(StepSpec::UpdatePackageSources).drop_last() =~= steps);
    } else if let Val::Object(ent) = sources[0].1 {
        let m0 = logged::<H>(m, "adding source/key '"@ + repr(sources[0].1) + "'"@);
        let (m1, params1, planned) = source_planned::<H>(m0, sources[0].0, ent, params, matcher, steps);
        if let Ok(steps1) = planned {
            let ent0 = entry_named(ent, sources[0].0);
            let signed = get(ent0, "source"@) matches Some(v) && holds(show(v), "$KEY_FILE"@);
            let keyed = key_placed::<H>(m0, ent0, signed, None, steps).2;
            assert(none_updates(keyed));
            assert(none_updates(steps1));
            sources_end_with_update::<H>(m1, sources.skip(1), params1, matcher, steps1);
        }
    }
}

}
