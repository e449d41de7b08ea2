//! Bringing packages up to date, and installing some.

use vstd::prelude::*;

use crate::cc::package_update_upgrade_install::host::{
    ask_is_file, ask_plan_install, ask_plan_update, ask_plan_upgrade, ask_read_config, ask_reboot, ask_run_steps,
    ask_sleep, ask_snap_settings, ask_which, copy_option, informed, log_info, log_warn, steps_of, warned, Depot,
    InstallSpec, StateSpec, StepSpec,
};
use crate::cc::{cfg_option_list, option_items, unit_result};
use crate::json::{json_of, parse_json};
use crate::number::{dec, dec_of};
use crate::show::{get_bool, switch};
use crate::text::{cat2, opt_text, texts, texts_push};
use crate::value::{get, vals, Node, Object, Val};

pub mod host;
pub mod laws;

pub use crate::cc::package_update_upgrade_install::host::{Fixture, Host, InstallPlan, State, Step};

verus! {

/// A package manager that a distribution uses.
#[derive(Debug, Clone, Copy, PartialEq, Eq, Structural)]
pub enum Manager {
    Apt,
    Snap,
}

/// Whether one of several keys is switched on.
pub open spec fn any_on(cfg: Seq<(Seq<char>, Val)>, keys: Seq<&str>) -> bool {
    exists|i: int| 0 <= i < keys.len() && switch(cfg, #[trigger] keys[i]@, false)
}

/// Whether one of several keys is switched on.
pub fn multi_cfg_bool_get(cfg: &Object, keys: &[&str]) -> (r: bool)
    ensures
        r == any_on(cfg@, keys@),
{
    let mut i: usize = 0;
    while i < keys.len()
        invariant
            i <= keys@.len(),
            forall|j: int| 0 <= j < i ==> !switch(cfg@, #[trigger] keys@[j]@, false),
        decreases keys@.len() - i,
    {
        if get_bool(cfg, keys[i], false) {
            assert(switch(cfg@, keys@[i as int]@, false));
            return true;
        }
        i += 1;
    }
    false
}

/// Whether either of two keys is switched on.
pub open spec fn either_on(cfg: Seq<(Seq<char>, Val)>, a: Seq<char>, b: Seq<char>) -> bool {
    switch(cfg, a, false) || switch(cfg, b, false)
}

fn either(cfg: &Object, a: &str, b: &str) -> (r: bool)
    ensures
        r == either_on(cfg@, a@, b@),
{
    let keys = [a, b];
    let r = multi_cfg_bool_get(cfg, &keys);
    assert(keys@[0] == a && keys@[1] == b);
    r
}

/// The list under a key: nothing and an explicit nothing are the empty list, a list
/// is itself, and anything else is one text.
pub fn option_list(cfg: &Object, key: &str) -> (r: Vec<Node>)
    ensures
        vals(r@) == option_items(cfg@, key@, Seq::empty()),
{
    let none: Vec<Node> = Vec::new();
    assert(vals(none@) =~= Seq::empty());
    cfg_option_list(cfg, key, none)
}

// ---------------------------------------------------------------------------
// What is known beforehand

/// The first of the two files that is there.
pub open spec fn marker_found<H: Host>(m: Depot<H>) -> (Depot<H>, Option<Seq<char>>) {
    let (m1, first) = ask_is_file::<H>(m, "/var/run/reboot-required"@);
    if first {
        (m1, Some("/var/run/reboot-required"@))
    } else {
        let (m2, second) = ask_is_file::<H>(m1, "/run/reboot-needed"@);
        if second {
            (m2, Some("/run/reboot-needed"@))
        } else {
            (m2, None)
        }
    }
}

fn find_marker<H: Host>(host: &mut H) -> (r: Option<String>)
    ensures
        (final(host).machine(), opt_text(r)) == marker_found::<H>(old(host).machine()),
{
    if host.is_file("/var/run/reboot-required") {
        Some("/var/run/reboot-required".to_owned())
    } else if host.is_file("/run/reboot-needed") {
        Some("/run/reboot-needed".to_owned())
    } else {
        None
    }
}

/// Until when snap is told not to refresh, in its printed settings.
pub open spec fn hold_in(settings: Result<Val, Seq<char>>) -> Option<Seq<char>> {
    match settings {
        Ok(Val::Object(all)) => match get(all, "refresh"@) {
            Some(Val::Object(refresh)) => match get(refresh, "hold"@) {
                Some(Val::Text(s)) => Some(s),
                _ => None,
            },
            _ => None,
        },
        _ => None,
    }
}

/// Until when snap is told not to refresh, in its settings.
pub fn refresh_hold(settings: &Node) -> (r: Option<String>)
    ensures
        opt_text(r) == hold_in(Ok(settings@)),
{
    match settings {
        Node::Object(all) => match all.get("refresh") {
            Some(Node::Object(refresh)) => match refresh.get("hold") {
                Some(Node::Text(s)) => Some(s.clone()),
                _ => None,
            },
            _ => None,
        },
        _ => None,
    }
}

/// What is known of the machine before anything is decided. Only what the
/// distribution uses is looked for.
pub open spec fn probed<H: Host>(m: Depot<H>, managers: Seq<Manager>) -> (Depot<H>, StateSpec) {
    let (m1, marker) = marker_found::<H>(m);
    let (m2, snap) = if managers.contains(Manager::Snap) {
        ask_which::<H>(m1, "snap"@)
    } else {
        (m1, false)
    };
    let (m3, apt) = if managers.contains(Manager::Apt) {
        ask_which::<H>(m2, "apt-get"@)
    } else {
        (m2, false)
    };
    let (m4, hold) = if snap {
        let (n, printed) = ask_snap_settings::<H>(m3);
        (
            n,
            match printed {
                Some(text) => hold_in(json_of(text)),
                None => None,
            },
        )
    } else {
        (m3, None)
    };
    (m4, StateSpec { apt_available: apt, snap_available: snap, snap_refresh_hold: hold, reboot_marker: marker })
}

fn uses(managers: &Vec<Manager>, manager: Manager) -> (r: bool)
    ensures
        r == managers@.contains(manager),
{
    let mut i: usize = 0;
    while i < managers.len()
        invariant
            i <= managers@.len(),
            forall|j: int| 0 <= j < i ==> managers@[j] != manager,
        decreases managers.len() - i,
    {
        if managers[i] == manager {
            return true;
        }
        i += 1;
    }
    false
}

impl State {
    /// Looks at the machine.
    pub fn probe<H: Host>(managers: &Vec<Manager>, host: &mut H) -> (r: Self)
        ensures
            (final(host).machine(), r@) == probed::<H>(old(host).machine(), managers@),
    {
        let reboot_marker = find_marker(host);
        let snap_available = uses(managers, Manager::Snap) && host.which("snap");
        let apt_available = uses(managers, Manager::Apt) && host.which("apt-get");
        let snap_refresh_hold = if snap_available {
            match host.snap_settings() {
                Some(text) => match parse_json(text.as_str()) {
                    Ok(settings) => refresh_hold(&settings),
                    Err(_) => None,
                },
                None => None,
            }
        } else {
            None
        };
        State { apt_available, snap_available, snap_refresh_hold, reboot_marker }
    }
}

// ---------------------------------------------------------------------------
// Deciding

/// What is to be done, in this order.
#[derive(Debug, Clone, PartialEq, Eq)]
pub struct Plan {
    /// Brings the lists of packages up to date.
    pub update: Vec<Step>,
    /// Brings packages up to date.
    pub upgrade: Vec<Step>,
    /// Installs packages.
    pub install: InstallPlan,
    /// The file for which the machine is started anew, if it is.
    pub reboot: Option<String>,
    /// Whether packages cannot be brought up to date on this distribution.
    pub upgrade_unsupported: bool,
}

pub struct PlanSpec {
    pub update: Seq<StepSpec>,
    pub upgrade: Seq<StepSpec>,
    pub install: InstallSpec,
    pub reboot: Option<Seq<char>>,
    pub upgrade_unsupported: bool,
}

impl View for Plan {
    type V = PlanSpec;

    open spec fn view(&self) -> PlanSpec {
        PlanSpec {
            update: steps_of(self.update@),
            upgrade: steps_of(self.upgrade@),
            install: self.install@,
            reboot: opt_text(self.reboot),
            upgrade_unsupported: self.upgrade_unsupported,
        }
    }
}

pub open spec fn plan_result(r: Result<Plan, String>) -> Result<PlanSpec, Seq<char>> {
    match r {
        Ok(p) => Ok(p@),
        Err(e) => Err(e@),
    }
}

/// Nothing to do.
pub open spec fn nothing() -> PlanSpec {
    PlanSpec {
        update: Seq::empty(),
        upgrade: Seq::empty(),
        install: InstallSpec { steps: Seq::empty(), failed: None },
        reboot: None,
        upgrade_unsupported: false,
    }
}

impl Default for Plan {
    fn default() -> (r: Self)
        ensures
            r@ == nothing(),
    {
        let r = Plan {
            update: Vec::new(),
            upgrade: Vec::new(),
            install: InstallPlan { steps: Vec::new(), failed: None },
            reboot: None,
            upgrade_unsupported: false,
        };
        assert(r@.update =~= Seq::empty());
        assert(r@.upgrade =~= Seq::empty());
        assert(r@.install.steps =~= Seq::empty());
        r
    }
}

pub open spec fn wants_update(cfg: Seq<(Seq<char>, Val)>) -> bool {
    either_on(cfg, "apt_update"@, "package_update"@)
}

pub open spec fn wants_upgrade(cfg: Seq<(Seq<char>, Val)>) -> bool {
    either_on(cfg, "package_upgrade"@, "apt_upgrade"@)
}

pub open spec fn wants_reboot(cfg: Seq<(Seq<char>, Val)>) -> bool {
    either_on(cfg, "apt_reboot_if_required"@, "package_reboot_if_required"@)
}

pub open spec fn wanted_packages(cfg: Seq<(Seq<char>, Val)>) -> Seq<Val> {
    option_items(cfg, "packages"@, Seq::empty())
}

/// The file for which the machine is started anew: there is one, the configuration
/// says so, and there is something to start it anew for.
pub open spec fn reboot_for(cfg: Seq<(Seq<char>, Val)>, state: StateSpec) -> Option<Seq<char>> {
    if (wants_upgrade(cfg) || wanted_packages(cfg).len() > 0) && wants_reboot(cfg) {
        state.reboot_marker
    } else {
        None
    }
}

/// How packages are brought up to date, or that they cannot be.
pub open spec fn upgrade_planned<H: Host>(m: Depot<H>, cfg: Seq<(Seq<char>, Val)>, apt: bool, state: StateSpec) -> (
    Depot<H>,
    Seq<StepSpec>,
    bool,
) {
    if wants_upgrade(cfg) {
        let (m1, steps) = ask_plan_upgrade::<H>(m, state);
        match steps {
            Ok(steps) => if apt {
                (m1, steps, false)
            } else {
                (m1, Seq::empty(), true)
            },
            Err(_) => (m1, Seq::empty(), true),
        }
    } else {
        (m, Seq::empty(), false)
    }
}

/// How packages are installed.
pub open spec fn install_planned<H: Host>(m: Depot<H>, cfg: Seq<(Seq<char>, Val)>, state: StateSpec) -> (
    Depot<H>,
    Result<InstallSpec, Seq<char>>,
) {
    if wanted_packages(cfg).len() > 0 {
        ask_plan_install::<H>(m, state, wanted_packages(cfg))
    } else {
        (m, Ok(InstallSpec { steps: Seq::empty(), failed: None }))
    }
}

/// What is to be done, and the error for which packages cannot be installed: what
/// comes before them and after them is planned all the same.
pub open spec fn parts_planned<H: Host>(
    m: Depot<H>,
    cfg: Seq<(Seq<char>, Val)>,
    managers: Seq<Manager>,
    state: StateSpec,
) -> (Depot<H>, Result<(PlanSpec, Option<Seq<char>>), Seq<char>>) {
    let (m1, read) = ask_read_config::<H>(m);
    match read {
        Err(e) => (m1, Err(e)),
        Ok(()) => {
            let (m2, update) = if wants_update(cfg) || wants_upgrade(cfg) {
                ask_plan_update::<H>(m1, state)
            } else {
                (m1, Seq::empty())
            };
            let (m3, upgrade, upgrade_unsupported) = upgrade_planned::<H>(
                m2,
                cfg,
                managers.contains(Manager::Apt),
                state,
            );
            let (m4, install) = install_planned::<H>(m3, cfg, state);
            let reboot = reboot_for(cfg, state);
            (
                m4,
                match install {
                    Err(e) => {
                        let install = InstallSpec { steps: Seq::empty(), failed: None };
                        Ok((PlanSpec { update, upgrade, install, reboot, upgrade_unsupported }, Some(e)))
                    },
                    Ok(install) => Ok((PlanSpec { update, upgrade, install, reboot, upgrade_unsupported }, None)),
                },
            )
        },
    }
}

pub open spec fn parts_result(r: Result<(Plan, Option<String>), String>) -> Result<
    (PlanSpec, Option<Seq<char>>),
    Seq<char>,
> {
    match r {
        Ok((plan, e)) => Ok((plan@, opt_text(e))),
        Err(e) => Err(e@),
    }
}

/// Decides what is to be done, and says for what error packages cannot be installed.
pub fn plan_parts<H: Host>(cfg: &Object, managers: &Vec<Manager>, state: &State, host: &mut H) -> (r: Result<
    (Plan, Option<String>),
    String,
>)
    ensures
        (final(host).machine(), parts_result(r)) == parts_planned::<H>(
            old(host).machine(),
            cfg@,
            managers@,
            state@,
        ),
{
    let update = either(cfg, "apt_update", "package_update");
    let upgrade = either(cfg, "package_upgrade", "apt_upgrade");
    let reboot_if_required = either(cfg, "apt_reboot_if_required", "package_reboot_if_required");
    let packages = option_list(cfg, "packages");
    assert(vals(packages@).len() == packages@.len());
    match host.read_config() {
        Ok(()) => {},
        Err(e) => return Err(e),
    }
    let mut plan = Plan::default();
    let mut error: Option<String> = None;
    if update || upgrade {
        plan.update = host.plan_update(state);
    }
    if upgrade {
        match host.plan_upgrade(state) {
            Ok(steps) => {
                if uses(managers, Manager::Apt) {
                    plan.upgrade = steps;
                } else {
                    plan.upgrade_unsupported = true;
                }
            },
            Err(_) => {
                plan.upgrade_unsupported = true;
            },
        }
    }
    if packages.len() > 0 {
        match host.plan_install(state, &packages) {
            Ok(install) => {
                plan.install = install;
            },
            Err(e) => {
                error = Some(e);
            },
        }
    }
    if (upgrade || packages.len() > 0) && reboot_if_required {
        plan.reboot = copy_option(&state.reboot_marker);
    }
    Ok((plan, error))
}

/// What is to be done.
pub open spec fn planned<H: Host>(m: Depot<H>, cfg: Seq<(Seq<char>, Val)>, managers: Seq<Manager>, state: StateSpec) -> (
    Depot<H>,
    Result<PlanSpec, Seq<char>>,
) {
    let (m1, parts) = parts_planned::<H>(m, cfg, managers, state);
    (
        m1,
        match parts {
            Err(e) => Err(e),
            Ok((_, Some(e))) => Err(e),
            Ok((plan, None)) => Ok(plan),
        },
    )
}

/// Decides what is to be done. Packages that cannot be installed are an error.
pub fn plan<H: Host>(cfg: &Object, managers: &Vec<Manager>, state: &State, host: &mut H) -> (r: Result<Plan, String>)
    ensures
        (final(host).machine(), plan_result(r)) == planned::<H>(old(host).machine(), cfg@, managers@, state@),
{
    match plan_parts(cfg, managers, state, host) {
        Err(e) => Err(e),
        Ok((_, Some(e))) => Err(e),
        Ok((plan, None)) => Ok(plan),
    }
}

// ---------------------------------------------------------------------------
// Doing

/// Waits, each time twice as long as before.
pub open spec fn waited<H: Host>(m: Depot<H>, first: nat, times: nat) -> Depot<H>
    decreases times,
{
    if times == 0 {
        m
    } else {
        waited::<H>(ask_sleep::<H>(m, first as u64), first * 2, (times - 1) as nat)
    }
}

/// Asks for the machine to be started anew, and waits for that. To still be here
/// then is an error.
pub open spec fn reboot_fired<H: Host>(m: Depot<H>) -> (Depot<H>, Seq<char>) {
    let (m1, asked) = ask_reboot::<H>(m);
    match asked {
        Err(e) => (m1, e),
        Ok(()) => (waited::<H>(m1, 1, 6), "Reboot did not happen after 63 seconds!"@),
    }
}

fn fire_reboot<H: Host>(host: &mut H) -> (r: String)
    ensures
        (final(host).machine(), r@) == reboot_fired::<H>(old(host).machine()),
{
    match host.reboot() {
        Ok(()) => {},
        Err(e) => return e,
    }
    let ghost m = host.machine();
    let mut wait: u64 = 1;
    let mut left: u64 = 6;
    while left > 0
        invariant
            left <= 6,
            left == 6 ==> wait == 1,
            left == 5 ==> wait == 2,
            left == 4 ==> wait == 4,
            left == 3 ==> wait == 8,
            left == 2 ==> wait == 16,
            left == 1 ==> wait == 32,
            waited::<H>(host.machine(), wait as nat, left as nat) == waited::<H>(m, 1, 6),
        decreases left,
    {
        host.sleep(wait);
        wait = wait * 2;
        left -= 1;
    }
    "Reboot did not happen after 63 seconds!".to_owned()
}

/// The errors with one more behind them where there is one, which is also warned of.
pub open spec fn with_error<H: Host>(m: Depot<H>, errors: Seq<Seq<char>>, what: Seq<char>, error: Option<Seq<char>>) -> (
    Depot<H>,
    Seq<Seq<char>>,
) {
    match error {
        Some(e) => (warned::<H>(m, what + e), errors.push(e)),
        None => (m, errors),
    }
}

fn take_error<H: Host>(errors: &mut Vec<String>, what: &str, error: Option<String>, host: &mut H)
    ensures
        (final(host).machine(), texts(final(errors)@)) == with_error::<H>(
            old(host).machine(),
            texts(old(errors)@),
            what@,
            opt_text(error),
        ),
{
    broadcast use texts_push;
    if let Some(e) = error {
        log_warn(host, cat2(what, e.as_str()).as_str());
        errors.push(e);
    }
}

pub open spec fn error_of(r: Result<(), Seq<char>>) -> Option<Seq<char>> {
    match r {
        Ok(()) => None,
        Err(e) => Some(e),
    }
}

fn take_result(r: Result<(), String>) -> (e: Option<String>)
    ensures
        opt_text(e) == error_of(unit_result(r)),
{
    match r {
        Ok(()) => None,
        Err(e) => Some(e),
    }
}

/// Brings packages up to date, and the error of that.
pub open spec fn upgraded<H: Host>(m: Depot<H>, plan: PlanSpec) -> (Depot<H>, Option<Seq<char>>) {
    if plan.upgrade_unsupported {
        (m, Some("Unable to install packages. Debian family distros only."@))
    } else {
        let (m1, r) = ask_run_steps::<H>(m, plan.upgrade);
        (m1, error_of(r))
    }
}

/// Installs packages, and the error of that.
pub open spec fn installed<H: Host>(m: Depot<H>, plan: PlanSpec) -> (Depot<H>, Option<Seq<char>>) {
    let (m1, r) = ask_run_steps::<H>(m, plan.install.steps);
    (
        m1,
        match r {
            Err(e) => Some(e),
            Ok(()) => plan.install.failed,
        },
    )
}

/// Starts the machine anew where that is planned, and the error of that.
pub open spec fn rebooted<H: Host>(m: Depot<H>, plan: PlanSpec) -> (Depot<H>, Option<Seq<char>>) {
    match plan.reboot {
        Some(marker) => {
            let (m1, e) = reboot_fired::<H>(
                informed::<H>(m, "***WARNING*** Rebooting after upgrade or install per "@ + marker),
            );
            (m1, Some(e))
        },
        None => (m, None),
    }
}

/// Does what is planned, and all the errors of that: an error is warned of and does
/// not keep what comes after it from being done.
pub open spec fn carried_out<H: Host>(m: Depot<H>, plan: PlanSpec) -> (Depot<H>, Seq<Seq<char>>) {
    let (m1, r1) = ask_run_steps::<H>(m, plan.update);
    let (m2, e1) = with_error::<H>(m1, Seq::empty(), "Package update failed\n"@, error_of(r1));
    let (m3, r2) = upgraded::<H>(m2, plan);
    let (m4, e2) = with_error::<H>(m3, e1, "Package upgrade failed\n"@, r2);
    let (m5, r3) = installed::<H>(m4, plan);
    let (m6, e3) = with_error::<H>(m5, e2, "Failure when attempting to install packages\n"@, r3);
    let (m7, r4) = rebooted::<H>(m6, plan);
    with_error::<H>(m7, e3, "Requested reboot did not happen!\n"@, r4)
}

/// What comes of the errors: the last one is reported, and how many there were is
/// warned of.
pub open spec fn concluded<H: Host>(m: Depot<H>, errors: Seq<Seq<char>>) -> (Depot<H>, Result<(), Seq<char>>) {
    if errors.len() == 0 {
        (m, Ok(()))
    } else {
        (
            warned::<H>(m, dec(errors.len()) + " failed with exceptions, re-raising the last one"@),
            Err(errors.last()),
        )
    }
}

/// Does what is planned.
pub fn run<H: Host>(plan: &Plan, host: &mut H) -> (r: Result<(), String>)
    ensures
        ({
            let (m, errors) = carried_out::<H>(old(host).machine(), plan@);
            (final(host).machine(), unit_result(r)) == concluded::<H>(m, errors)
        }),
{
    let mut errors: Vec<String> = Vec::new();
    assert(texts(errors@) =~= Seq::empty());
    let update = take_result(host.run_steps(&plan.update));
    take_error(&mut errors, "Package update failed\n", update, host);
    let upgrade = if plan.upgrade_unsupported {
        Some("Unable to install packages. Debian family distros only.".to_owned())
    } else {
        take_result(host.run_steps(&plan.upgrade))
    };
    take_error(&mut errors, "Package upgrade failed\n", upgrade, host);
    let install = match host.run_steps(&plan.install.steps) {
        Ok(()) => copy_option(&plan.install.failed),
        Err(e) => Some(e),
    };
    take_error(&mut errors, "Failure when attempting to install packages\n", install, host);
    let reboot = match &plan.reboot {
        Some(marker) => {
            log_info(
                host,
                cat2("***WARNING*** Rebooting after upgrade or install per ", marker.as_str()).as_str(),
            );
            Some(fire_reboot(host))
        },
        None => None,
    };
    take_error(&mut errors, "Requested reboot did not happen!\n", reboot, host);
    if errors.len() == 0 {
        return Ok(());
    }
    let text = cat2(dec_of(errors.len() as u128).as_str(), " failed with exceptions, re-raising the last one");
    log_warn(host, text.as_str());
    let last = errors.len() - 1;
    assert(texts(errors@).last() == errors@[last as int]@);
    Err(errors[last].clone())
}

/// A plan with the error for which packages cannot be installed: their installation
/// is to fail with it.
pub open spec fn failing(plan: PlanSpec, error: Option<Seq<char>>) -> PlanSpec {
    match error {
        Some(e) => PlanSpec { install: InstallSpec { steps: plan.install.steps, failed: Some(e) }, ..plan },
        None => plan,
    }
}

/// Everything that the module does.
pub open spec fn handled<H: Host>(m: Depot<H>, cfg: Seq<(Seq<char>, Val)>, managers: Seq<Manager>) -> (
    Depot<H>,
    Result<(), Seq<char>>,
) {
    let (m1, state) = probed::<H>(m, managers);
    let (m2, parts) = parts_planned::<H>(m1, cfg, managers, state);
    match parts {
        Err(e) => (m2, Err(e)),
        Ok((plan, e)) => {
            let (m3, errors) = carried_out::<H>(m2, failing(plan, e));
            concluded::<H>(m3, errors)
        },
    }
}

/// Brings packages up to date, installs some, and starts the machine anew, as far as
/// each of that is configured. Packages that cannot be installed do not keep the rest
/// from being done.
pub fn handle_with<H: Host>(cfg: &Object, managers: &Vec<Manager>, host: &mut H) -> (r: Result<(), String>)
    ensures
        (final(host).machine(), unit_result(r)) == handled::<H>(old(host).machine(), cfg@, managers@),
{
    let state = State::probe(managers, host);
    match plan_parts(cfg, managers, &state, host) {
        Ok((mut plan, error)) => {
            if error.is_some() {
                plan.install.failed = error;
            }
            run(&plan, host)
        },
        Err(e) => Err(e),
    }
}

// ---------------------------------------------------------------------------
// Laws

/// A configuration that asks for nothing plans nothing.
pub proof fn empty_configuration_plans_nothing<H: Host>(m: Depot<H>, managers: Seq<Manager>, state: StateSpec)
    requires
        ask_read_config::<H>(m).1 is Ok,
    ensures
        planned::<H>(m, Seq::empty(), managers, state).1 == Ok::<PlanSpec, Seq<char>>(nothing()),
{
}

/// The machine is started anew only where a file says so, the configuration allows
/// it, and something is brought up to date or installed.
pub proof fn reboot_needs_all_three(cfg: Seq<(Seq<char>, Val)>, state: StateSpec)
    ensures
        reboot_for(cfg, state) is Some <==> {
            &&& state.reboot_marker is Some
            &&& wants_reboot(cfg)
            &&& wants_upgrade(cfg) || wanted_packages(cfg).len() > 0
        },
{
}

/// A distribution without apt cannot bring packages up to date; installing is still
/// tried.
pub proof fn no_upgrade_without_apt<H: Host>(m: Depot<H>, cfg: Seq<(Seq<char>, Val)>, state: StateSpec)
    requires
        wants_upgrade(cfg),
    ensures
        upgrade_planned::<H>(m, cfg, false, state).1 == Seq::<StepSpec>::empty(),
        upgrade_planned::<H>(m, cfg, false, state).2,
{
}

/// The error that is reported is that of the last part that had one: where the
/// machine was to be started anew, it is that this did not happen.
pub proof fn last_error_is_reported<H: Host>(m: Depot<H>, plan: PlanSpec)
    requires
        plan.reboot is Some,
    ensures
        carried_out::<H>(m, plan).1.len() > 0,
        exists|n: Depot<H>| carried_out::<H>(m, plan).1.last() == #[trigger] reboot_fired::<H>(n).1,
{
    let (m1, r1) = ask_run_steps::<H>(m, plan.update);
    let (m2, e1) = with_error::<H>(m1, Seq::empty(), "Package update failed\n"@, error_of(r1));
    let (m3, r2) = upgraded::<H>(m2, plan);
    let (m4, e2) = with_error::<H>(m3, e1, "Package upgrade failed\n"@, r2);
    let (m5, r3) = installed::<H>(m4, plan);
    let (m6, e3) = with_error::<H>(m5, e2, "Failure when attempting to install packages\n"@, r3);
    let n = informed::<H>(m6, "***WARNING*** Rebooting after upgrade or install per "@ + plan.reboot->0);
    assert(carried_out::<H>(m, plan).1.last() == reboot_fired::<H>(n).1);
}

/// Packages that cannot be installed do not keep the lists of packages and the
/// packages themselves from being brought up to date, and their error is reported at
/// the end unless the machine was to be started anew.
pub proof fn a_bad_package_stops_nothing_else<H: Host>(m: Depot<H>, plan: PlanSpec, error: Seq<char>)
    requires
        plan.install.steps.len() == 0,
        ask_run_steps::<H>(upgrade_tried::<H>(m, plan), plan.install.steps).1 is Ok,
        plan.reboot is None,
    ensures
        carried_out::<H>(m, failing(plan, Some(error))).1.last() == error,
        upgrade_tried::<H>(m, failing(plan, Some(error))) == upgrade_tried::<H>(m, plan),
{
}

/// The machine once the lists of packages and the packages were brought up to date.
pub open spec fn upgrade_tried<H: Host>(m: Depot<H>, plan: PlanSpec) -> Depot<H> {
    let (m1, r1) = ask_run_steps::<H>(m, plan.update);
    let (m2, e1) = with_error::<H>(m1, Seq::empty(), "Package update failed\n"@, error_of(r1));
    let (m3, r2) = upgraded::<H>(m2, plan);
    with_error::<H>(m3, e1, "Package upgrade failed\n"@, r2).0
}

}
