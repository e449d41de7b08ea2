//! Partitioning disks and putting filesystems on them.
//!
//! Nothing can be planned ahead here: what is on a disk is only known once the
//! tools were asked, and what is asked next depends on what they said. So the
//! machine stands behind [`Host`], and every contract speaks of the machine
//! before and after.

use vstd::prelude::*;

use crate::cc::disk_setup::format::{make_fs, mkfs};
use crate::cc::disk_setup::host::{
    failure_told, informed, log_debug, log_failure, log_info, log_warn, logged, warned,
};
use crate::cc::disk_setup::make::{mkpart, partition};
use crate::cc::disk_setup::probe::Disks;
use crate::cc::disk_setup::table::unit_result;
use crate::cc::mounts::{dotted, expand_dotted_devname};
use crate::machine::text_table;
use crate::show::{kind_name, kind_text, py_str, repr, repr_of, show};
use crate::text::{cat2, cat3, cat4, cat5, cat6, opt_text, prepend, prepend_empty, prepend_push, same};
use crate::value::{get, keys, put, shift_removed, vals, vals_push, Node, Object, Val};

pub mod format;
pub mod host;
pub mod laws;
pub mod layout;
pub mod make;
pub mod probe;
pub mod steps;
pub mod table;

pub use crate::cc::disk_setup::host::{Fixture, Host};
pub use crate::cc::disk_setup::probe::Entry;

verus! {

// ---------------------------------------------------------------------------
// Aliases

/// The device that an alias stands for, if it is one.
pub open spec fn alias(aliases: Val, candidate: Seq<char>) -> Result<Option<Seq<char>>, Seq<char>> {
    match aliases {
        Val::Object(m) => match get(m, candidate) {
            None | Some(Val::Null) => Ok(None),
            Some(v) => Ok(Some(show(v))),
        },
        _ => Err("'"@ + kind_text(aliases) + "' object has no attribute 'get'"@),
    }
}

pub fn alias_to_device(aliases: &Node, candidate: &str) -> (r: Result<Option<String>, String>)
    ensures
        match r {
            Ok(o) => alias(aliases@, candidate@) == Ok::<Option<Seq<char>>, Seq<char>>(opt_text(o)),
            Err(e) => alias(aliases@, candidate@) == Err::<Option<Seq<char>>, Seq<char>>(e@),
        },
{
    match aliases {
        Node::Object(o) => match o.get(candidate) {
            None => Ok(None),
            Some(Node::Null) => Ok(None),
            Some(v) => Ok(Some(py_str(v))),
        },
        _ => Err(cat3("'", kind_name(aliases).as_str(), "' object has no attribute 'get'")),
    }
}

/// A definition that remembers the name it was under.
pub open spec fn with_origin(definition: Val, name: Seq<char>) -> Val {
    match definition {
        Val::Object(m) => Val::Object(put(m, "_origname"@, Val::Text(name))),
        _ => definition,
    }
}

/// The disks with the definition under one name moved to another. What was under
/// the other name is dropped.
pub open spec fn moved(disks: Seq<(Seq<char>, Val)>, name: Seq<char>, to: Seq<char>) -> Seq<(Seq<char>, Val)> {
    let cleared = shift_removed(disks, to);
    let definition = match get(cleared, name) {
        Some(v) => v,
        None => Val::Null,
    };
    shift_removed(put(cleared, to, with_origin(definition, name)), name)
}

/// The disks with the names that are aliases resolved, one after another.
pub open spec fn resolved(disks: Seq<(Seq<char>, Val)>, names: Seq<Seq<char>>, aliases: Val) -> Result<
    Seq<(Seq<char>, Val)>,
    Seq<char>,
>
    decreases names.len(),
{
    if names.len() == 0 {
        Ok(disks)
    } else {
        match alias(aliases, names[0]) {
            Err(e) => Err(e),
            Ok(None) => resolved(disks, names.skip(1), aliases),
            Ok(Some(to)) => if to == names[0] {
                resolved(disks, names.skip(1), aliases)
            } else {
                resolved(moved(disks, names[0], to), names.skip(1), aliases)
            },
        }
    }
}

/// What is said of one name that is resolved.
pub open spec fn move_told<H: Host>(m: Disks<H>, disks: Seq<(Seq<char>, Val)>, name: Seq<char>, to: Seq<char>) -> Disks<H> {
    let m1 = if get(disks, to) is Some {
        informed::<H>(m, "Replacing "@ + name + " in disk_setup for translation of "@ + to)
    } else {
        m
    };
    logged::<H>(m1, "updated disk_setup device entry '"@ + name + "' to '"@ + to + "'"@)
}

/// What is said while names are resolved, up to the first that cannot be.
pub open spec fn resolved_told<H: Host>(
    m: Disks<H>,
    disks: Seq<(Seq<char>, Val)>,
    names: Seq<Seq<char>>,
    aliases: Val,
) -> Disks<H>
    decreases names.len(),
{
    if names.len() == 0 {
        m
    } else {
        match alias(aliases, names[0]) {
            Err(e) => m,
            Ok(None) => resolved_told::<H>(m, disks, names.skip(1), aliases),
            Ok(Some(to)) => if to == names[0] {
                resolved_told::<H>(m, disks, names.skip(1), aliases)
            } else {
                resolved_told::<H>(
                    move_told::<H>(m, disks, names[0], to),
                    moved(disks, names[0], to),
                    names.skip(1),
                    aliases,
                )
            },
        }
    }
}

/// Resolves the aliases among the names of the disks.
pub fn update_disk_setup_devices<H: Host>(disk_setup: &Object, aliases: &Node, host: &mut H) -> (r: Result<Object, String>)
    ensures
        final(host).machine() == resolved_told::<H>(
            old(host).machine(),
            disk_setup@,
            keys(disk_setup@),
            aliases@,
        ),
        match r {
            Ok(o) => resolved(disk_setup@, keys(disk_setup@), aliases@) == Ok::<Seq<(Seq<char>, Val)>, Seq<char>>(o@),
            Err(e) => resolved(disk_setup@, keys(disk_setup@), aliases@) == Err::<Seq<(Seq<char>, Val)>, Seq<char>>(
                e@,
            ),
        },
{
    let ghost names = keys(disk_setup@);
    let mut disks = disk_setup.clone();
    let mut i: usize = 0;
    assert(names.skip(0) =~= names);
    while i < disk_setup.len()
        invariant
            i <= disk_setup@.len(),
            names == keys(disk_setup@),
            resolved(disks@, names.skip(i as int), aliases@) == resolved(disk_setup@, names, aliases@),
            resolved_told::<H>(host.machine(), disks@, names.skip(i as int), aliases@) == resolved_told::<H>(
                old(host).machine(),
                disk_setup@,
                names,
                aliases@,
            ),
        decreases disk_setup@.len() - i,
    {
        let name = disk_setup.key_at(i).as_str();
        assert(names.skip(i as int)[0] == name@);
        assert(names.skip(i as int).skip(1) =~= names.skip(i + 1));
        match alias_to_device(aliases, name) {
            Err(e) => return Err(e),
            Ok(None) => {},
            Ok(Some(to)) => {
                if !same(to.as_str(), name) {
                    let ghost before = disks@;
                    if disks.get(to.as_str()).is_some() {
                        log_info(
                            host,
                            cat4("Replacing ", name, " in disk_setup for translation of ", to.as_str()).as_str(),
                        );
                    }
                    let _ = disks.shift_remove(to.as_str());
                    let mut definition = match disks.get(name) {
                        Some(v) => v.clone(),
                        None => Node::Null,
                    };
                    if let Node::Object(inner) = definition {
                        let mut inner = inner;
                        inner.insert("_origname", Node::text(name));
                        definition = Node::Object(inner);
                    }
                    disks.insert(to.as_str(), definition);
                    let _ = disks.shift_remove(name);
                    assert(disks@ == moved(before, name@, to@));
                    log_debug(
                        host,
                        cat5("updated disk_setup device entry '", name, "' to '", to.as_str(), "'").as_str(),
                    );
                }
            },
        }
        i += 1;
    }
    Ok(disks)
}

/// A filesystem definition with the partition that a dotted name gives. What it
/// said of the partition itself is kept under another key.
pub open spec fn with_partition(definition: Seq<(Seq<char>, Val)>, part: Seq<char>) -> Seq<(Seq<char>, Val)> {
    let kept = match get(definition, "partition"@) {
        Some(existing) => put(definition, "_partition"@, existing),
        None => definition,
    };
    put(kept, "partition"@, Val::Text(part))
}

/// A filesystem definition with its device resolved.
pub open spec fn fs_resolved(definition: Val, aliases: Val) -> Result<Val, Seq<char>> {
    match definition {
        Val::Object(m) => match get(m, "device"@) {
            None | Some(Val::Null) => Ok(definition),
            Some(Val::Text(name)) => {
                let (device, part) = dotted(name);
                match alias(aliases, device) {
                    Err(e) => Err(e),
                    Ok(to) => {
                        let named = match to {
                            Some(to) => put(put(m, "_origname"@, Val::Text(name)), "device"@, Val::Text(to)),
                            None => m,
                        };
                        match part {
                            Some(part) => if part.len() > 0 {
                                Ok(Val::Object(with_partition(named, part)))
                            } else {
                                Ok(Val::Object(named))
                            },
                            None => Ok(Val::Object(named)),
                        }
                    },
                }
            },
            Some(other) => Err("'"@ + kind_text(other) + "' object has no attribute 'rsplit'"@),
        },
        _ => Ok(definition),
    }
}

/// What is said of a partition that a dotted name gives beside one that is set.
pub open spec fn partition_told<H: Host>(
    m: Disks<H>,
    definition: Seq<(Seq<char>, Val)>,
    name: Seq<char>,
    part: Option<Seq<char>>,
) -> Disks<H> {
    if part is Some && part->0.len() > 0 && get(definition, "partition"@) is Some {
        warned::<H>(
            m,
            "Partition '"@ + part->0 + "' from dotted device name '"@ + name + "' overrides 'partition' key in "@
                + repr(Val::Object(definition)),
        )
    } else {
        m
    }
}

/// What is said while a definition's device is resolved.
pub open spec fn fs_told<H: Host>(m: Disks<H>, definition: Val, aliases: Val) -> Disks<H> {
    match definition {
        Val::Object(o) => match get(o, "device"@) {
            Some(Val::Text(name)) => {
                let (device, part) = dotted(name);
                match alias(aliases, device) {
                    Err(_) => m,
                    Ok(None) => partition_told::<H>(m, o, name, part),
                    Ok(Some(to)) => partition_told::<H>(
                        logged::<H>(
                            m,
                            name + " is mapped to disk="@ + to + " part="@ + (match part {
                                Some(part) => part,
                                None => "None"@,
                            }),
                        ),
                        put(put(o, "_origname"@, Val::Text(name)), "device"@, Val::Text(to)),
                        name,
                        part,
                    ),
                }
            },
            _ => m,
        },
        _ => warned::<H>(m, "entry in disk_setup not a dict: "@ + show(definition)),
    }
}

fn resolve_fs<H: Host>(definition: &Node, aliases: &Node, host: &mut H) -> (r: Result<Node, String>)
    ensures
        final(host).machine() == fs_told::<H>(old(host).machine(), definition@, aliases@),
        match r {
            Ok(v) => fs_resolved(definition@, aliases@) == Ok::<Val, Seq<char>>(v@),
            Err(e) => fs_resolved(definition@, aliases@) == Err::<Val, Seq<char>>(e@),
        },
{
    let o = match definition {
        Node::Object(o) => o,
        _ => {
            log_warn(host, cat2("entry in disk_setup not a dict: ", py_str(definition).as_str()).as_str());
            return Ok(definition.clone());
        },
    };
    let name = match o.get("device") {
        None => return Ok(definition.clone()),
        Some(Node::Null) => return Ok(definition.clone()),
        Some(Node::Text(name)) => name.as_str(),
        Some(other) => return Err(cat3("'", kind_name(other).as_str(), "' object has no attribute 'rsplit'")),
    };
    let (device, part) = expand_dotted_devname(name);
    let mut out = o.clone();
    match alias_to_device(aliases, device.as_str()) {
        Err(e) => return Err(e),
        Ok(None) => {},
        Ok(Some(to)) => {
            let shown = match &part {
                Some(part) => part.clone(),
                None => "None".to_owned(),
            };
            log_debug(
                host,
                cat5(name, " is mapped to disk=", to.as_str(), " part=", shown.as_str()).as_str(),
            );
            out.insert("_origname", Node::text(name));
            out.insert("device", Node::Text(to));
        },
    }
    if let Some(part) = part {
        if !part.as_str().is_empty() {
            let existing: Option<Node> = match out.get("partition") {
                Some(v) => Some(v.clone()),
                None => None,
            };
            if let Some(v) = existing {
                let shown = repr_of(&Node::Object(out.clone()));
                log_warn(
                    host,
                    cat6(
                        "Partition '",
                        part.as_str(),
                        "' from dotted device name '",
                        name,
                        "' overrides 'partition' key in ",
                        shown.as_str(),
                    ).as_str(),
                );
                out.insert("_partition", v);
            }
            out.insert("partition", Node::Text(part));
        }
    }
    Ok(Node::Object(out))
}

/// The filesystem definitions with their devices resolved.
pub open spec fn all_fs_resolved(definitions: Seq<Val>, aliases: Val) -> Result<Seq<Val>, Seq<char>>
    decreases definitions.len(),
{
    if definitions.len() == 0 {
        Ok(Seq::empty())
    } else {
        match fs_resolved(definitions[0], aliases) {
            Err(e) => Err(e),
            Ok(v) => prepend(seq![v], all_fs_resolved(definitions.skip(1), aliases)),
        }
    }
}

/// What is said while the devices of definitions are resolved, up to the first that
/// cannot be.
pub open spec fn all_fs_told<H: Host>(m: Disks<H>, definitions: Seq<Val>, aliases: Val) -> Disks<H>
    decreases definitions.len(),
{
    if definitions.len() == 0 {
        m
    } else {
        let m1 = fs_told::<H>(m, definitions[0], aliases);
        match fs_resolved(definitions[0], aliases) {
            Err(_) => m1,
            Ok(_) => all_fs_told::<H>(m1, definitions.skip(1), aliases),
        }
    }
}

/// Resolves the devices of the filesystem definitions.
pub fn update_fs_setup_devices<H: Host>(fs_setup: &Vec<Node>, aliases: &Node, host: &mut H) -> (r: Result<
    Vec<Node>,
    String,
>)
    ensures
        final(host).machine() == all_fs_told::<H>(old(host).machine(), vals(fs_setup@), aliases@),
        match r {
            Ok(v) => all_fs_resolved(vals(fs_setup@), aliases@) == Ok::<Seq<Val>, Seq<char>>(vals(v@)),
            Err(e) => all_fs_resolved(vals(fs_setup@), aliases@) == Err::<Seq<Val>, Seq<char>>(e@),
        },
{
    broadcast use vals_push;
    let ghost all = vals(fs_setup@);
    let mut out: Vec<Node> = Vec::new();
    let mut i: usize = 0;
    proof {
        assert(all.skip(0) =~= all);
        assert(vals(out@) =~= Seq::empty());
        prepend_empty(all_fs_resolved(all, aliases@));
    }
    while i < fs_setup.len()
        invariant
            i <= fs_setup@.len(),
            all == vals(fs_setup@),
            prepend(vals(out@), all_fs_resolved(all.skip(i as int), aliases@)) == all_fs_resolved(all, aliases@),
            all_fs_told::<H>(host.machine(), all.skip(i as int), aliases@) == all_fs_told::<H>(
                old(host).machine(),
                all,
                aliases@,
            ),
        decreases fs_setup.len() - i,
    {
        assert(all.skip(i as int)[0] == fs_setup@[i as int]@);
        assert(all.skip(i as int).skip(1) =~= all.skip(i + 1));
        match resolve_fs(&fs_setup[i], aliases, host) {
            Err(e) => return Err(e),
            Ok(v) => {
                proof {
                    prepend_push(vals(out@), v@, all_fs_resolved(all.skip(i + 1), aliases@));
                }
                let ghost before = vals(out@);
                out.push(v);
                assert(vals(out@) =~= before.push(v@));
            },
        }
        i += 1;
    }
    assert(vals(out@) + Seq::<Val>::empty() =~= vals(out@));
    Ok(out)
}

// ---------------------------------------------------------------------------
// The module

/// Partitions a disk. That it fails is only said in the log.
pub open spec fn disk_set_up<H: Host>(
    m: Disks<H>,
    disk: Seq<char>,
    definition: Val,
    ids: Seq<(Seq<char>, Seq<char>)>,
) -> Disks<H> {
    match definition {
        Val::Object(definition) => {
            let (m1, done) = partition::<H>(m, disk, definition, ids);
            match done {
                Ok(()) => m1,
                Err(e) => failure_told::<H>(m1, "Failed partitioning operation\n"@ + e),
            }
        },
        _ => warned::<H>(m, "Invalid disk definition for "@ + disk),
    }
}

/// Makes a filesystem. That it fails is only said in the log.
pub open spec fn filesystem_set_up<H: Host>(m: Disks<H>, definition: Val) -> Disks<H> {
    match definition {
        Val::Object(definition) => {
            let (m1, done) = make_fs::<H>(m, definition);
            match done {
                Ok(()) => m1,
                Err(e) => failure_told::<H>(m1, "Failed during filesystem operation\n"@ + e),
            }
        },
        _ => warned::<H>(m, "Invalid file system definition: "@ + show(definition)),
    }
}

/// Partitions disk after disk. A disk that fails does not stop the others, and a
/// definition that is no mapping is passed over.
pub open spec fn partition_all<H: Host>(
    m: Disks<H>,
    disks: Seq<(Seq<char>, Val)>,
    ids: Seq<(Seq<char>, Seq<char>)>,
) -> Disks<H>
    decreases disks.len(),
{
    if disks.len() == 0 {
        m
    } else {
        partition_all::<H>(disk_set_up::<H>(m, disks[0].0, disks[0].1, ids), disks.skip(1), ids)
    }
}

/// Makes filesystem after filesystem, as [`partition_all`] partitions.
pub open spec fn make_all_fs<H: Host>(m: Disks<H>, definitions: Seq<Val>) -> Disks<H>
    decreases definitions.len(),
{
    if definitions.len() == 0 {
        m
    } else {
        make_all_fs::<H>(filesystem_set_up::<H>(m, definitions[0]), definitions.skip(1))
    }
}

/// The aliases of a configuration.
pub open spec fn aliases_in(cfg: Seq<(Seq<char>, Val)>) -> Val {
    match get(cfg, "device_aliases"@) {
        Some(v) => v,
        None => Val::Object(Seq::empty()),
    }
}

/// Sets up the disks of a configuration.
pub open spec fn set_up_disks<H: Host>(
    m: Disks<H>,
    cfg: Seq<(Seq<char>, Val)>,
    ids: Seq<(Seq<char>, Seq<char>)>,
) -> (Disks<H>, Result<(), Seq<char>>) {
    match get(cfg, "disk_setup"@) {
        Some(Val::Object(disks)) => {
            let m1 = resolved_told::<H>(m, disks, keys(disks), aliases_in(cfg));
            match resolved(disks, keys(disks), aliases_in(cfg)) {
                Err(e) => (m1, Err(e)),
                Ok(disks) => (
                    partition_all::<H>(
                        logged::<H>(m1, "Partitioning disks: "@ + show(Val::Object(disks))),
                        disks,
                        ids,
                    ),
                    Ok(()),
                ),
            }
        },
        _ => (m, Ok(())),
    }
}

/// Sets up the filesystems of a configuration.
pub open spec fn set_up_filesystems<H: Host>(m: Disks<H>, cfg: Seq<(Seq<char>, Val)>) -> (
    Disks<H>,
    Result<(), Seq<char>>,
) {
    match get(cfg, "fs_setup"@) {
        Some(Val::Array(definitions)) => {
            let m1 = all_fs_told::<H>(
                logged::<H>(m, "setting up filesystems: "@ + show(Val::Array(definitions))),
                definitions,
                aliases_in(cfg),
            );
            match all_fs_resolved(definitions, aliases_in(cfg)) {
                Err(e) => (m1, Err(e)),
                Ok(definitions) => (make_all_fs::<H>(m1, definitions), Ok(())),
            }
        },
        _ => (m, Ok(())),
    }
}

/// Sets up the disks, then the filesystems.
pub open spec fn set_up<H: Host>(
    m: Disks<H>,
    cfg: Seq<(Seq<char>, Val)>,
    ids: Seq<(Seq<char>, Seq<char>)>,
) -> (Disks<H>, Result<(), Seq<char>>) {
    let (m1, disks) = set_up_disks::<H>(m, cfg, ids);
    match disks {
        Err(e) => (m1, Err(e)),
        Ok(()) => set_up_filesystems::<H>(m1, cfg),
    }
}

fn partition_disks<H: Host>(host: &mut H, disks: &Object, ids: &Vec<(String, String)>)
    ensures
        final(host).machine() == partition_all::<H>(old(host).machine(), disks@, text_table(ids@)),
{
    let ghost all = disks@;
    let ghost t = text_table(ids@);
    let mut i: usize = 0;
    assert(all.skip(0) =~= all);
    while i < disks.len()
        invariant
            i <= disks@.len(),
            all == disks@,
            t == text_table(ids@),
            partition_all::<H>(host.machine(), all.skip(i as int), t) == partition_all::<H>(
                old(host).machine(),
                all,
                t,
            ),
        decreases disks@.len() - i,
    {
        assert(all.skip(i as int).skip(1) =~= all.skip(i + 1));
        let disk = disks.key_at(i).as_str();
        match disks.value_at(i) {
            Node::Object(definition) => match mkpart(host, disk, definition, ids) {
                Ok(()) => {},
                Err(e) => log_failure(host, cat2("Failed partitioning operation\n", e.as_str()).as_str()),
            },
            _ => log_warn(host, cat2("Invalid disk definition for ", disk).as_str()),
        }
        i += 1;
    }
}

fn make_filesystems<H: Host>(host: &mut H, definitions: &Vec<Node>)
    ensures
        final(host).machine() == make_all_fs::<H>(old(host).machine(), vals(definitions@)),
{
    let ghost all = vals(definitions@);
    let mut i: usize = 0;
    assert(all.skip(0) =~= all);
    while i < definitions.len()
        invariant
            i <= definitions@.len(),
            all == vals(definitions@),
            make_all_fs::<H>(host.machine(), all.skip(i as int)) == make_all_fs::<H>(old(host).machine(), all),
        decreases definitions.len() - i,
    {
        assert(all.skip(i as int)[0] == definitions@[i as int]@);
        assert(all.skip(i as int).skip(1) =~= all.skip(i + 1));
        match &definitions[i] {
            Node::Object(definition) => match mkfs(host, definition) {
                Ok(()) => {},
                Err(e) => log_failure(host, cat2("Failed during filesystem operation\n", e.as_str()).as_str()),
            },
            other => log_warn(host, cat2("Invalid file system definition: ", py_str(other).as_str()).as_str()),
        }
        i += 1;
    }
}

/// Sets up the disks and the filesystems of a configuration. `gpt_ids` has the
/// GUID behind each four-character partition code.
///
/// The two failures are aliases that are no mapping, and a filesystem's device
/// name that is no text; a disk or a filesystem that fails is passed over.
pub fn handle_with<H: Host>(cfg: &Object, gpt_ids: &Vec<(String, String)>, host: &mut H) -> (r: Result<(), String>)
    ensures
        (final(host).machine(), unit_result(r)) == set_up::<H>(
            old(host).machine(),
            cfg@,
            text_table(gpt_ids@),
        ),
{
    let aliases = match cfg.get("device_aliases") {
        Some(v) => v.clone(),
        None => Node::Object(Object::new()),
    };
    if let Some(Node::Object(disks)) = cfg.get("disk_setup") {
        match update_disk_setup_devices(disks, &aliases, host) {
            Err(e) => return Err(e),
            Ok(disks) => {
                let shown = py_str(&Node::Object(disks.clone()));
                log_debug(host, cat2("Partitioning disks: ", shown.as_str()).as_str());
                partition_disks(host, &disks, gpt_ids);
            },
        }
    }
    if let Some(listed) = cfg.get("fs_setup") {
        let definitions = match listed {
            Node::Array(definitions) => definitions,
            _ => return Ok(()),
        };
        log_debug(host, cat2("setting up filesystems: ", py_str(listed).as_str()).as_str());
        match update_fs_setup_devices(definitions, &aliases, host) {
            Err(e) => return Err(e),
            Ok(definitions) => make_filesystems(host, &definitions),
        }
    }
    Ok(())
}

// ---------------------------------------------------------------------------
// Laws

/// Whether the set-up succeeds is known before the machine is asked anything: a disk
/// or a filesystem that fails does not stop the others.
pub proof fn the_machine_cannot_fail_the_set_up<H: Host>(
    m: Disks<H>,
    n: Disks<H>,
    cfg: Seq<(Seq<char>, Val)>,
    ids: Seq<(Seq<char>, Seq<char>)>,
)
    ensures
        set_up::<H>(m, cfg, ids).1 == set_up::<H>(n, cfg, ids).1,
{
}

/// Without aliases the names of the disks stay what they are.
pub proof fn no_alias_changes_nothing(disks: Seq<(Seq<char>, Val)>, names: Seq<Seq<char>>)
    ensures
        resolved(disks, names, Val::Object(Seq::empty())) == Ok::<Seq<(Seq<char>, Val)>, Seq<char>>(disks),
    decreases names.len(),
{
    if names.len() > 0 {
        no_alias_changes_nothing(disks, names.skip(1));
    }
}

}
