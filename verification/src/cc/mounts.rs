//! Mounts and swap: what goes into the file system table.

use vstd::prelude::*;

use crate::cc::mounts::devices::{current_fstab, parse_fstab, push_step, step_specs};
use crate::cc::mounts::entries::{
    plan_fstab, plan_mounts, planned_rows, row_of, rows, swap_fields, table_steps,
};
use crate::cc::mounts::host::{
    ask_chmod, ask_ensure_dir, ask_is_mounted, ask_remove_file, ask_report, ask_subp, ask_swap_facts,
    ask_uses_systemd, ask_write_file, no_facts, nothing_known, StepSpec, SwapFacts, Table,
};
use crate::cc::mounts::swap::{creating, creating_text, plan_swapcfg, swap_steps};
use crate::cc::unit_result;
use crate::machine::text_table;
use crate::paths::{dirname, parent};
use crate::show::{py_str, show};
use crate::text::{argv2, argv4, argv5, cat2, cat3, cat7, opt_text, rsplit_at, rsplit_once, texts};
use crate::value::{copy_values, get, vals, Node, Object, Val};

pub mod devices;
pub mod entries;
pub mod host;
pub mod laws;
pub mod swap;

pub use crate::cc::mounts::host::{Fixture, Host, Step, SwapEnv, SwapMethod};

verus! {

/// A dotted device name: what stands before the last dot, and what behind it.
pub open spec fn dotted(name: Seq<char>) -> (Seq<char>, Option<Seq<char>>) {
    match rsplit_once(name, '.') {
        Some((device, partition)) => (device, Some(partition)),
        None => (name, None),
    }
}

/// Splits a dotted device name at its last dot.
pub fn expand_dotted_devname(dotted_name: &str) -> (r: (String, Option<String>))
    ensures
        (r.0@, opt_text(r.1)) == dotted(dotted_name@),
{
    match rsplit_at(dotted_name, '.') {
        Some((device, partition)) => (device, Some(partition)),
        None => (dotted_name.to_owned(), None),
    }
}

// ---------------------------------------------------------------------------
// Carrying out steps

/// The command that lays down a swap file.
pub open spec fn swap_command(path: Seq<char>, mib: Seq<char>, method: SwapMethod) -> Seq<Seq<char>> {
    match method {
        SwapMethod::Fallocate => seq!["fallocate"@, "-l"@, mib + "M"@, path],
        SwapMethod::Dd => seq!["dd"@, "if=/dev/zero"@, "of="@ + path, "bs=1M"@, "count="@ + mib],
    }
}

fn swap_argv(path: &str, mib: &str, method: SwapMethod) -> (r: Vec<String>)
    ensures
        texts(r@) == swap_command(path@, mib@, method),
{
    match method {
        SwapMethod::Fallocate => argv4("fallocate", "-l", cat2(mib, "M").as_str(), path),
        SwapMethod::Dd => argv5(
            "dd",
            "if=/dev/zero",
            cat2("of=", path).as_str(),
            "bs=1M",
            cat2("count=", mib).as_str(),
        ),
    }
}

/// What is said of a swap file that could not be laid down.
pub open spec fn failure_text(path: Seq<char>, mib: Seq<char>, method: Seq<char>, error: Seq<char>) -> Seq<char> {
    ("Failed to create swapfile '"@ + path + "' of size "@ + mib + "MB via "@ + method + ": "@) + error
}

/// Lays down a swap file in one way. What a failure leaves is removed.
pub open spec fn swap_tried<H: Host>(m: Table<H>, path: Seq<char>, mib: Seq<char>, method: SwapMethod) -> (
    Table<H>,
    Result<(), Seq<char>>,
) {
    let (m1, made) = ask_subp::<H>(m, swap_command(path, mib, method));
    match made {
        Ok(()) => (m1, Ok(())),
        Err(e) => {
            let said = StepSpec::Info(failure_text(path, mib, host::method_name(method), e));
            (ask_remove_file::<H>(ask_report::<H>(m1, said), path), Err(e))
        },
    }
}

/// Lays down a swap file, with the second way where the first fails.
pub open spec fn swap_created<H: Host>(
    m: Table<H>,
    path: Seq<char>,
    mib: Seq<char>,
    method: SwapMethod,
    fstype: Seq<char>,
) -> (Table<H>, Result<(), Seq<char>>) {
    match method {
        SwapMethod::Dd => swap_tried::<H>(m, path, mib, SwapMethod::Dd),
        SwapMethod::Fallocate => {
            let (m1, first) = swap_tried::<H>(m, path, mib, SwapMethod::Fallocate);
            match first {
                Ok(()) => (m1, Ok(())),
                Err(_) => {
                    let m2 = ask_report::<H>(
                        m1,
                        StepSpec::Info("fallocate swap creation failed, will attempt with dd"@),
                    );
                    let m3 = ask_report::<H>(m2, StepSpec::Debug(creating_text(path, fstype, "dd"@)));
                    swap_tried::<H>(m3, path, mib, SwapMethod::Dd)
                },
            }
        },
    }
}

fn try_swap<H: Host>(path: &str, mib: &str, method: SwapMethod, host: &mut H) -> (r: Result<(), String>)
    ensures
        (final(host).machine(), unit_result(r)) == swap_tried::<H>(old(host).machine(), path@, mib@, method),
{
    match host.subp(&swap_argv(path, mib, method)) {
        Ok(()) => Ok(()),
        Err(e) => {
            let first = cat7("Failed to create swapfile '", path, "' of size ", mib, "MB via ", method.name(), ": ");
            host.report(&Step::Info(cat2(first.as_str(), e.as_str())));
            host.remove_file(path);
            Err(e)
        },
    }
}

fn create_swap<H: Host>(path: &str, mib: &str, method: SwapMethod, fstype: &str, host: &mut H) -> (r: Result<(), String>)
    ensures
        (final(host).machine(), unit_result(r)) == swap_created::<H>(
            old(host).machine(),
            path@,
            mib@,
            method,
            fstype@,
        ),
{
    if let SwapMethod::Fallocate = method {
        if try_swap(path, mib, SwapMethod::Fallocate, host).is_ok() {
            return Ok(());
        }
        host.report(&Step::Info("fallocate swap creation failed, will attempt with dd".to_owned()));
        host.report(&Step::Debug(creating(path, fstype, "dd")));
    }
    try_swap(path, mib, SwapMethod::Dd, host)
}

/// Whether any of several directories has nothing mounted on it.
pub open spec fn any_unmounted<H: Host>(m: Table<H>, dirs: Seq<Seq<char>>) -> (Table<H>, bool)
    decreases dirs.len(),
{
    if dirs.len() == 0 {
        (m, false)
    } else {
        let (m1, mounted) = ask_is_mounted::<H>(m, dirs[0]);
        if !mounted {
            (m1, true)
        } else {
            any_unmounted::<H>(m1, dirs.skip(1))
        }
    }
}

fn is_any_unmounted<H: Host>(dirs: &Vec<String>, host: &mut H) -> (r: bool)
    ensures
        (final(host).machine(), r) == any_unmounted::<H>(old(host).machine(), texts(dirs@)),
{
    let ghost all = texts(dirs@);
    let mut i: usize = 0;
    assert(all.skip(0) =~= all);
    while i < dirs.len()
        invariant
            i <= dirs@.len(),
            all == texts(dirs@),
            any_unmounted::<H>(host.machine(), all.skip(i as int)) == any_unmounted::<H>(old(host).machine(), all),
        decreases dirs.len() - i,
    {
        assert(all.skip(i as int)[0] == dirs@[i as int]@);
        assert(all.skip(i as int).skip(1) =~= all.skip(i + 1));
        if !host.is_mounted(dirs[i].as_str()) {
            return true;
        }
        i += 1;
    }
    false
}

/// Two commands, the second only after the first.
pub open spec fn both_run<H: Host>(m: Table<H>, first: Seq<Seq<char>>, second: Seq<Seq<char>>) -> (
    Table<H>,
    Result<(), Seq<char>>,
) {
    let (m1, done) = ask_subp::<H>(m, first);
    match done {
        Err(e) => (m1, Err(e)),
        Ok(()) => ask_subp::<H>(m1, second),
    }
}

/// Mounts everything where it is needed, and has systemd read the table again.
pub open spec fn all_mounted<H: Host>(m: Table<H>, reload: bool, changed: bool, dirs: Seq<Seq<char>>) -> (
    Table<H>,
    Result<(), Seq<char>>,
) {
    let (m1, needed) = if changed {
        (m, true)
    } else {
        any_unmounted::<H>(m, dirs)
    };
    if !needed {
        (m1, Ok(()))
    } else if reload {
        both_run::<H>(m1, seq!["mount"@, "-a"@], seq!["systemctl"@, "daemon-reload"@])
    } else {
        ask_subp::<H>(m1, seq!["mount"@, "-a"@])
    }
}

/// An error with what it is about before it.
pub open spec fn about(path: Seq<char>, r: Result<(), Seq<char>>) -> Result<(), Seq<char>> {
    match r {
        Ok(()) => Ok(()),
        Err(e) => Err(path + ": "@ + e),
    }
}

/// Carries out a step. On a machine that is not live, nothing is run.
pub open spec fn step_run<H: Host>(m: Table<H>, step: StepSpec, live: bool) -> (Table<H>, Result<(), Seq<char>>) {
    match step {
        StepSpec::Debug(_) | StepSpec::Warning(_) | StepSpec::Info(_) => (ask_report::<H>(m, step), Ok(())),
        StepSpec::EnsureDir(path) => {
            let (m1, made) = ask_ensure_dir::<H>(m, path);
            (m1, about(path, made))
        },
        StepSpec::EnsureConfigDir(path) => {
            let (m1, made) = ask_ensure_dir::<H>(m, path);
            match made {
                Ok(()) => (m1, Ok(())),
                Err(_) => (
                    ask_report::<H>(m1, StepSpec::Warning("Failed to make '"@ + path + "' config-mount"@)),
                    Ok(()),
                ),
            }
        },
        StepSpec::BtrfsPrepare(path) => if live {
            both_run::<H>(m, seq!["truncate"@, "-s"@, "0"@, path], seq!["chattr"@, "+C"@, path])
        } else {
            (m, Ok(()))
        },
        StepSpec::CreateSwap { path, mib, method, fstype } => if live {
            swap_created::<H>(m, path, mib, method, fstype)
        } else {
            (m, Ok(()))
        },
        StepSpec::ChmodSwap(path) => {
            let (m1, done) = ask_chmod::<H>(m, path);
            (m1, about(path, done))
        },
        StepSpec::Mkswap(path) => if live {
            let (m1, made) = ask_subp::<H>(m, seq!["mkswap"@, path]);
            match made {
                Ok(()) => (m1, Ok(())),
                Err(e) => (ask_remove_file::<H>(m1, path), Err(e)),
            }
        } else {
            (m, Ok(()))
        },
        StepSpec::WriteFstab(text) => ask_write_file::<H>(m, "/etc/fstab"@, text),
        StepSpec::SwapOn => if live {
            ask_subp::<H>(m, seq!["swapon"@, "-a"@])
        } else {
            (m, Ok(()))
        },
        StepSpec::MountAll { daemon_reload, changes_made, dirs } => if live {
            all_mounted::<H>(m, daemon_reload, changes_made, dirs)
        } else {
            (m, Ok(()))
        },
    }
}

fn run_both<H: Host>(first: &Vec<String>, second: &Vec<String>, host: &mut H) -> (r: Result<(), String>)
    ensures
        (final(host).machine(), unit_result(r)) == both_run::<H>(
            old(host).machine(),
            texts(first@),
            texts(second@),
        ),
{
    match host.subp(first) {
        Ok(()) => host.subp(second),
        Err(e) => Err(e),
    }
}

fn run_step<H: Host>(step: &Step, live: bool, host: &mut H) -> (r: Result<(), String>)
    ensures
        (final(host).machine(), unit_result(r)) == step_run::<H>(old(host).machine(), step@, live),
{
    match step {
        Step::Debug(_) => {
            host.report(step);
            Ok(())
        },
        Step::Warning(_) => {
            host.report(step);
            Ok(())
        },
        Step::Info(_) => {
            host.report(step);
            Ok(())
        },
        Step::EnsureDir(path) => match host.ensure_dir(path.as_str()) {
            Ok(()) => Ok(()),
            Err(e) => Err(cat3(path.as_str(), ": ", e.as_str())),
        },
        Step::EnsureConfigDir(path) => {
            if host.ensure_dir(path.as_str()).is_err() {
                host.report(&Step::Warning(cat3("Failed to make '", path.as_str(), "' config-mount")));
            }
            Ok(())
        },
        Step::BtrfsPrepare(path) => if live {
            run_both(
                &argv4("truncate", "-s", "0", path.as_str()),
                &crate::text::argv3("chattr", "+C", path.as_str()),
                host,
            )
        } else {
            Ok(())
        },
        Step::CreateSwap { path, mib, method, fstype } => if live {
            create_swap(path.as_str(), mib.as_str(), *method, fstype.as_str(), host)
        } else {
            Ok(())
        },
        Step::ChmodSwap(path) => match host.chmod(path.as_str()) {
            Ok(()) => Ok(()),
            Err(e) => Err(cat3(path.as_str(), ": ", e.as_str())),
        },
        Step::Mkswap(path) => if live {
            match host.subp(&argv2("mkswap", path.as_str())) {
                Ok(()) => Ok(()),
                Err(e) => {
                    host.remove_file(path.as_str());
                    Err(e)
                },
            }
        } else {
            Ok(())
        },
        Step::WriteFstab(text) => host.write_file("/etc/fstab", text.as_str()),
        Step::SwapOn => if live {
            host.subp(&argv2("swapon", "-a"))
        } else {
            Ok(())
        },
        Step::MountAll { daemon_reload, changes_made, dirs } => {
            if !live {
                return Ok(());
            }
            let needed = if *changes_made {
                true
            } else {
                is_any_unmounted(dirs, host)
            };
            if !needed {
                return Ok(());
            }
            if *daemon_reload {
                run_both(&argv2("mount", "-a"), &argv2("systemctl", "daemon-reload"), host)
            } else {
                host.subp(&argv2("mount", "-a"))
            }
        },
    }
}

/// Carries out steps; the first failure ends it.
pub open spec fn steps_run<H: Host>(m: Table<H>, steps: Seq<StepSpec>, live: bool) -> (Table<H>, Result<(), Seq<char>>)
    decreases steps.len(),
{
    if steps.len() == 0 {
        (m, Ok(()))
    } else {
        let (m1, done) = step_run::<H>(m, steps[0], live);
        match done {
            Err(e) => (m1, Err(e)),
            Ok(()) => steps_run::<H>(m1, steps.skip(1), live),
        }
    }
}

pub fn run<H: Host>(steps: &Vec<Step>, live: bool, host: &mut H) -> (r: Result<(), String>)
    ensures
        (final(host).machine(), unit_result(r)) == steps_run::<H>(old(host).machine(), step_specs(steps@), live),
{
    let ghost all = step_specs(steps@);
    let mut i: usize = 0;
    assert(all.skip(0) =~= all);
    while i < steps.len()
        invariant
            i <= steps@.len(),
            all == step_specs(steps@),
            steps_run::<H>(host.machine(), all.skip(i as int), live) == steps_run::<H>(
                old(host).machine(),
                all,
                live,
            ),
        decreases steps.len() - i,
    {
        assert(all.skip(i as int)[0] == steps@[i as int]@);
        assert(all.skip(i as int).skip(1) =~= all.skip(i + 1));
        match run_step(&steps[i], live, host) {
            Ok(()) => {},
            Err(e) => return Err(e),
        }
        i += 1;
    }
    Ok(())
}

// ---------------------------------------------------------------------------
// The module

/// The options that entries get by default.
pub open spec fn mount_options(systemd: bool) -> Seq<char> {
    if systemd {
        "defaults,nofail,x-systemd.after=cloud-init-network.service,_netdev"@
    } else {
        "defaults,nobootwait"@
    }
}

/// The fields that entries get by default, unless others are configured.
pub open spec fn default_fields(cfg: Seq<(Seq<char>, Val)>, systemd: bool) -> Seq<Val> {
    match get(cfg, "mount_default_fields"@) {
        Some(Val::Array(fields)) => fields,
        _ => seq![
            Val::Null,
            Val::Null,
            Val::Text("auto"@),
            Val::Text(mount_options(systemd)),
            Val::Text("0"@),
            Val::Text("2"@),
        ],
    }
}

fn default_fields_of(cfg: &Object, options: &str, systemd: bool) -> (r: Vec<Node>)
    requires
        options@ == mount_options(systemd),
    ensures
        vals(r@) == default_fields(cfg@, systemd),
{
    if let Some(Node::Array(fields)) = cfg.get("mount_default_fields") {
        return copy_values(fields);
    }
    let mut out: Vec<Node> = Vec::new();
    out.push(Node::Null);
    out.push(Node::Null);
    out.push(Node::text("auto"));
    out.push(Node::text(options));
    out.push(Node::text("0"));
    out.push(Node::text("2"));
    assert(vals(out@) =~= default_fields(cfg@, systemd));
    out
}

/// What is known of the machine for swap. Of one that is not live, nothing.
pub open spec fn swap_env<H: Host>(m: Table<H>, swap: Val, live: bool) -> (Table<H>, SwapFacts) {
    if !live {
        (m, no_facts())
    } else {
        let path = match swap {
            Val::Object(cfg) => show(swap::swap_name(cfg)),
            _ => "/swap.img"@,
        };
        ask_swap_facts::<H>(m, parent(path))
    }
}

fn swap_env_of<H: Host>(swapcfg: &Node, live: bool, host: &mut H) -> (r: SwapEnv)
    ensures
        (final(host).machine(), r@) == swap_env::<H>(old(host).machine(), swapcfg@, live),
{
    if !live {
        return nothing_known();
    }
    let path = match swapcfg {
        Node::Object(cfg) => match cfg.get("filename") {
            Some(v) => py_str(v),
            None => "/swap.img".to_owned(),
        },
        _ => "/swap.img".to_owned(),
    };
    host.swap_facts(dirname(path.as_str()).as_str())
}

/// What is under a key, or a value in its place.
pub open spec fn get_or(cfg: Seq<(Seq<char>, Val)>, key: Seq<char>, default: Val) -> Val {
    match get(cfg, key) {
        Some(v) => v,
        None => default,
    }
}

/// The aliases of devices.
pub open spec fn aliases_in(cfg: Seq<(Seq<char>, Val)>) -> Seq<(Seq<char>, Val)> {
    match get(cfg, "device_aliases"@) {
        Some(Val::Object(m)) => m,
        _ => Seq::empty(),
    }
}

fn aliases_of(cfg: &Object) -> (r: Object)
    ensures
        r@ == aliases_in(cfg@),
{
    match cfg.get("device_aliases") {
        Some(Node::Object(m)) => m.clone(),
        _ => Object::new(),
    }
}

/// Rows with one for a swap file that was made.
pub open spec fn with_swap(mounts: Seq<Seq<Val>>, path: Option<Seq<char>>) -> Seq<Seq<Val>> {
    match path {
        Some(path) => mounts.push(seq![Val::Text(path)] + swap_fields()),
        None => mounts,
    }
}

/// What follows once the rows of the configuration are known: the swap file is
/// made, and the table is written. A swap file that could not be made has no row.
pub open spec fn table_set_up<H: Host>(
    m: Table<H>,
    cfg: Seq<(Seq<char>, Val)>,
    mounts: Seq<Seq<Val>>,
    fstab: devices::FstabSpec,
    said: Seq<StepSpec>,
    systemd: bool,
    live: bool,
) -> (Table<H>, Result<(), Seq<char>>) {
    let swap = get_or(cfg, "swap"@, Val::Object(Seq::empty()));
    let (m1, env) = swap_env::<H>(m, swap, live);
    let (m2, steps, planned) = swap_steps::<H>(m1, swap, env);
    let (m3, first) = steps_run::<H>(m2, said, live);
    match first {
        Err(e) => (m3, Err(e)),
        Ok(()) => {
            let (m4, second) = steps_run::<H>(m3, steps, live);
            let (m5, path) = match second {
                Ok(()) => (m4, planned),
                Err(e) => (ask_report::<H>(m4, StepSpec::Warning("failed to setup swap: "@ + e)), None),
            };
            match table_steps(with_swap(mounts, path), fstab, systemd) {
                Err(e) => (m5, Err(e)),
                Ok(last) => steps_run::<H>(m5, last, live),
            }
        },
    }
}

/// Sets up mounts and swap. No device is known under a name of the metadata.
pub open spec fn set_up<H: Host>(m: Table<H>, cfg: Seq<(Seq<char>, Val)>, live: bool) -> (Table<H>, Result<(), Seq<char>>) {
    let (m1, systemd) = ask_uses_systemd::<H>(m);
    let mounts = get_or(cfg, "mounts"@, Val::Array(Seq::empty()));
    let s0 = seq![StepSpec::Debug("mounts configuration is "@ + show(mounts))];
    let (m2, fstab) = current_fstab::<H>(m1);
    let (m3, said, planned) = planned_rows::<H>(
        m2,
        mounts,
        fstab.devs,
        Seq::empty(),
        aliases_in(cfg),
        default_fields(cfg, systemd),
        mount_options(systemd),
        s0,
    );
    match planned {
        Err(e) => {
            let (m4, done) = steps_run::<H>(m3, said, live);
            (
                m4,
                match done {
                    Err(first) => Err(first),
                    Ok(()) => Err(e),
                },
            )
        },
        Ok(planned) => table_set_up::<H>(m3, cfg, planned, fstab, said, systemd, live),
    }
}

fn set_up_table<H: Host>(
    cfg: &Object,
    mounts: Vec<Vec<Node>>,
    fstab: &devices::Fstab,
    said: &Vec<Step>,
    systemd: bool,
    live: bool,
    host: &mut H,
) -> (r: Result<(), String>)
    ensures
        (final(host).machine(), unit_result(r)) == table_set_up::<H>(
            old(host).machine(),
            cfg@,
            rows(mounts@),
            fstab@,
            step_specs(said@),
            systemd,
            live,
        ),
{
    let swapcfg = match cfg.get("swap") {
        Some(v) => v.clone(),
        None => Node::Object(Object::new()),
    };
    let env = swap_env_of(&swapcfg, live, host);
    let (steps, planned) = plan_swapcfg(&swapcfg, &env, host);
    match run(said, live, host) {
        Ok(()) => {},
        Err(e) => return Err(e),
    }
    let path = match run(&steps, live, host) {
        Ok(()) => planned,
        Err(e) => {
            host.report(&Step::Warning(cat2("failed to setup swap: ", e.as_str())));
            None
        },
    };
    let ghost before = rows(mounts@);
    let mut mounts = mounts;
    if let Some(path) = path {
        let row = row_of(path, "none", "swap", "sw", "0", "0");
        let ghost x = vals(row@);
        mounts.push(row);
        assert(rows(mounts@) =~= before.push(x));
    }
    match plan_fstab(&mounts, fstab, systemd) {
        Ok(last) => run(&last, live, host),
        Err(e) => Err(e),
    }
}

/// Sets up mounts and swap.
pub fn handle_with<H: Host>(cfg: &Object, live: bool, host: &mut H) -> (r: Result<(), String>)
    ensures
        (final(host).machine(), unit_result(r)) == set_up::<H>(old(host).machine(), cfg@, live),
{
    let systemd = host.uses_systemd();
    let options = if systemd {
        "defaults,nofail,x-systemd.after=cloud-init-network.service,_netdev"
    } else {
        "defaults,nobootwait"
    };
    let fields = default_fields_of(cfg, options, systemd);
    let mounts = match cfg.get("mounts") {
        Some(v) => v.clone(),
        None => {
            let none: Vec<Node> = Vec::new();
            assert(vals(none@) =~= Seq::empty());
            Node::Array(none)
        },
    };
    let mut steps: Vec<Step> = Vec::new();
    assert(step_specs(steps@) =~= Seq::empty());
    push_step(&mut steps, Step::Debug(cat2("mounts configuration is ", py_str(&mounts).as_str())));
    let fstab = parse_fstab(host);
    let devices: Vec<(String, String)> = Vec::new();
    assert(text_table(devices@) =~= Seq::empty());
    match plan_mounts(&mounts, &fstab.devs, &devices, &aliases_of(cfg), &fields, options, &mut steps, host) {
        Ok(planned) => set_up_table(cfg, planned, &fstab, &steps, systemd, live, host),
        Err(e) => match run(&steps, live, host) {
            Ok(()) => Err(e),
            Err(first) => Err(first),
        },
    }
}

// ---------------------------------------------------------------------------
// Laws

/// Away from the machine itself, no command is run and nothing is removed.
pub proof fn no_commands_elsewhere<H: Host>(m: Table<H>, steps: Seq<StepSpec>)
    ensures
        m.calls.len() <= steps_run::<H>(m, steps, false).0.calls.len(),
        steps_run::<H>(m, steps, false).0.calls.take(m.calls.len() as int) == m.calls,
        forall|i: int|
            m.calls.len() <= i < steps_run::<H>(m, steps, false).0.calls.len() ==> {
                let call = #[trigger] steps_run::<H>(m, steps, false).0.calls[i];
                !(call is Subp) && !(call is RemoveFile)
            },
    decreases steps.len(),
{
    if steps.len() > 0 {
        let (m1, first) = step_run::<H>(m, steps[0], false);
        no_commands_elsewhere::<H>(m1, steps.skip(1));
        let calls = steps_run::<H>(m, steps, false).0.calls;
        assert(m1.calls.take(m.calls.len() as int) =~= m.calls);
        assert forall|i: int| m.calls.len() <= i < m1.calls.len() implies !(#[trigger] m1.calls[i] is Subp) && !(
        m1.calls[i] is RemoveFile) by {}
        if first is Ok {
            assert(calls.take(m.calls.len() as int) =~= calls.take(m1.calls.len() as int).take(m.calls.len() as int));
            assert forall|i: int| m.calls.len() <= i < calls.len() implies ({
                let call = #[trigger] calls[i];
                !(call is Subp) && !(call is RemoveFile)
            }) by {
                if i < m1.calls.len() {
                    assert(calls[i] == calls.take(m1.calls.len() as int)[i]);
                }
            }
        }
    } else {
        assert(m.calls.take(m.calls.len() as int) =~= m.calls);
    }
}

/// Where nothing was changed and everything is mounted, nothing is mounted and the
/// table is not read again.
pub proof fn mounted_is_left_alone<H: Host>(m: Table<H>, reload: bool, dirs: Seq<Seq<char>>)
    requires
        !any_unmounted::<H>(m, dirs).1,
    ensures
        all_mounted::<H>(m, reload, false, dirs) == (any_unmounted::<H>(m, dirs).0, Ok::<(), Seq<char>>(())),
{
}

}
