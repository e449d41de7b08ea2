//! What is promised of updating, upgrading and installing packages.

use vstd::prelude::*;

use crate::cc::package_update_upgrade_install::{
    any_on, carried_out, concluded, hold_in, install_planned, marker_found, parts_planned, probed, reboot_fired,
    rebooted, upgraded, waited, wanted_packages, wants_reboot, wants_update, wants_upgrade, Manager, PlanSpec,
};
use crate::cc::package_update_upgrade_install::host::{Call, Depot, Host, StateSpec};
use crate::show::switch;
use crate::value::{get, Val};

verus! {

/// Each thing is asked for by its own key, or by its older one.
pub proof fn each_thing_has_two_keys(cfg: Seq<(Seq<char>, Val)>)
    ensures
        get(cfg, "package_update"@) == Some(Val::Bool(true)) || get(cfg, "apt_update"@) == Some(Val::Bool(true)) ==> wants_update(
            cfg,
        ),
        get(cfg, "package_upgrade"@) == Some(Val::Bool(true)) || get(cfg, "apt_upgrade"@) == Some(Val::Bool(true))
            ==> wants_upgrade(cfg),
        get(cfg, "package_reboot_if_required"@) == Some(Val::Bool(true)) || get(cfg, "apt_reboot_if_required"@) == Some(
            Val::Bool(true),
        ) ==> wants_reboot(cfg),
        get(cfg, "package_update"@) is None && get(cfg, "apt_update"@) is None ==> !wants_update(cfg),
        get(cfg, "package_upgrade"@) is None && get(cfg, "apt_upgrade"@) is None ==> !wants_upgrade(cfg),
        get(cfg, "package_reboot_if_required"@) is None && get(cfg, "apt_reboot_if_required"@) is None ==> !wants_reboot(cfg),
        forall|items: Seq<Val>| get(cfg, "packages"@) == Some(Val::Array(items)) ==> #[trigger] wanted_packages(cfg) == items,
        get(cfg, "packages"@) is None ==> wanted_packages(cfg) == Seq::<Val>::empty(),
{
}

/// Either of two files says that the machine is to be started anew; the first that is
/// there counts.
pub proof fn two_files_ask_for_a_reboot<H: Host>(m: Depot<H>)
    ensures
        ({
            let a = Call::IsFile("/var/run/reboot-required"@);
            let b = Call::IsFile("/run/reboot-needed"@);
            let (w, first) = H::reply(m.world, a);
            let second = H::reply(w, b).1;
            let (after, marker) = marker_found::<H>(m);
            &&& first->Flag_0 ==> marker == Some("/var/run/reboot-required"@) && after.calls == m.calls.push(a)
            &&& !first->Flag_0 && second->Flag_0 ==> marker == Some("/run/reboot-needed"@)
            &&& !first->Flag_0 && !second->Flag_0 ==> marker is None
            &&& !first->Flag_0 ==> after.calls == m.calls.push(a).push(b)
        }),
{
}

/// Of the package managers, only those that the distribution uses are looked for, under
/// the names of their programs.
pub proof fn which_managers_are_looked_for<H: Host>(m: Depot<H>)
    ensures
        ({
            let (m1, marker) = marker_found::<H>(m);
            let (after, state) = probed::<H>(m, seq![Manager::Apt]);
            let apt = Call::Which("apt-get"@);
            &&& after.calls == m1.calls.push(apt)
            &&& state.apt_available == H::reply(m1.world, apt).1->Flag_0
            &&& !state.snap_available
            &&& state.reboot_marker == marker
            &&& state.snap_refresh_hold is None
        }),
        ({
            let (m1, marker) = marker_found::<H>(m);
            let (after, state) = probed::<H>(m, seq![Manager::Snap]);
            let snap = Call::Which("snap"@);
            let (w, there) = H::reply(m1.world, snap);
            &&& !state.apt_available
            &&& state.snap_available == there->Flag_0
            &&& there->Flag_0 ==> after.calls == m1.calls.push(snap).push(Call::SnapSettings)
            &&& !there->Flag_0 ==> after.calls == m1.calls.push(snap)
        }),
{
    assert(seq![Manager::Apt].contains(Manager::Apt)) by {
        assert(seq![Manager::Apt][0] == Manager::Apt);
    }
    assert(seq![Manager::Snap].contains(Manager::Snap)) by {
        assert(seq![Manager::Snap][0] == Manager::Snap);
    }
    assert(!seq![Manager::Apt].contains(Manager::Snap));
    assert(!seq![Manager::Snap].contains(Manager::Apt));
}

/// The lists are brought up to date before packages are, also where only the latter is
/// asked for; packages are planned for with what is known of the machine.
pub proof fn an_upgrade_needs_an_update<H: Host>(m: Depot<H>, cfg: Seq<(Seq<char>, Val)>, managers: Seq<Manager>, state: StateSpec)
    requires
        H::reply(m.world, Call::ReadConfig).1->Done_0 is Ok,
    ensures
        parts_planned::<H>(m, cfg, managers, state).1 is Ok,
        ({
            let after = parts_planned::<H>(m, cfg, managers, state).0;
            let n = m.calls.len() as int;
            &&& after.calls[n] == Call::ReadConfig
            &&& wants_update(cfg) || wants_upgrade(cfg) ==> after.calls[n + 1] == Call::PlanUpdate(state)
            &&& wants_upgrade(cfg) ==> after.calls[n + 2] == Call::PlanUpgrade(state)
            &&& wanted_packages(cfg).len() > 0 ==> after.calls.last() == (Call::PlanInstall {
                state,
                packages: wanted_packages(cfg),
            })
            &&& !wants_update(cfg) && !wants_upgrade(cfg) && wanted_packages(cfg).len() == 0 ==> after.calls == m.calls.push(
                Call::ReadConfig,
            )
        }),
{
}

/// What is planned is run in this order: the lists, the packages that are there, the
/// packages that are new. Nothing is started anew unless that is planned.
pub proof fn the_parts_are_run_in_order<H: Host>(m: Depot<H>, plan: PlanSpec)
    requires
        plan.reboot is None,
        !plan.upgrade_unsupported,
        carried_out::<H>(m, plan).1.len() == 0,
    ensures
        carried_out::<H>(m, plan).0.calls == m.calls.push(Call::Run(plan.update)).push(Call::Run(plan.upgrade)).push(
            Call::Run(plan.install.steps),
        ),
{
}

/// A reboot is asked for, and waited for in six ever longer pauses that make up 63
/// seconds.
pub proof fn a_reboot_is_waited_for<H: Host>(m: Depot<H>)
    ensures
        H::reply(m.world, Call::Reboot).1->Done_0 is Ok ==> reboot_fired::<H>(m).0.calls == m.calls.push(Call::Reboot).push(
            Call::Sleep(1),
        ).push(Call::Sleep(2)).push(Call::Sleep(4)).push(Call::Sleep(8)).push(Call::Sleep(16)).push(Call::Sleep(32)),
        H::reply(m.world, Call::Reboot).1->Done_0 matches Err(e) ==> reboot_fired::<H>(m).1 == e && reboot_fired::<H>(
            m,
        ).0.calls == m.calls.push(Call::Reboot),
        1 + 2 + 4 + 8 + 16 + 32 == 63int,
{
    reveal_with_fuel(waited, 7);
}

/// Until when snap holds its refreshes is read from under `refresh` and `hold`.
pub proof fn where_the_hold_is(all: Seq<(Seq<char>, Val)>, refresh: Seq<(Seq<char>, Val)>, text: Seq<char>)
    requires
        get(all, "refresh"@) == Some(Val::Object(refresh)),
        get(refresh, "hold"@) == Some(Val::Text(text)),
    ensures
        hold_in(Ok(Val::Object(all))) == Some(text),
{
}

/// Without an error all ends well. Otherwise the last error is reported.
pub proof fn the_last_error_counts<H: Host>(m: Depot<H>, errors: Seq<Seq<char>>)
    ensures
        concluded::<H>(m, errors).1 is Ok <==> errors.len() == 0,
        errors.len() > 0 ==> concluded::<H>(m, errors).1 == Err::<(), Seq<char>>(errors[errors.len() - 1]) && concluded::<H>(
            m,
            errors,
        ).0.calls.len() == m.calls.len() + 1,
{
}

/// A thing is switched on by any of its keys.
pub proof fn any_key_switches_on(cfg: Seq<(Seq<char>, Val)>, keys: Seq<&str>, i: int)
    requires
        0 <= i < keys.len(),
    ensures
        get(cfg, keys[i]@) == Some(Val::Bool(true)) ==> any_on(cfg, keys),
        (forall|j: int| 0 <= j < keys.len() ==> get(cfg, #[trigger] keys[j]@) is None)
            ==> !any_on(cfg, keys),
{
    if get(cfg, keys[i]@) == Some(Val::Bool(true)) {
        assert(switch(cfg, keys[i]@, false));
    }
}

/// Packages are planned for where any are wanted.
pub proof fn packages_are_planned_for<H: Host>(m: Depot<H>, cfg: Seq<(Seq<char>, Val)>, state: StateSpec)
    ensures
        ({
            let wanted = wanted_packages(cfg);
            let (m1, r) = install_planned::<H>(m, cfg, state);
            &&& wanted.len() == 0 ==> m1 == m && r is Ok && (r->Ok_0).steps.len() == 0 && (r->Ok_0).failed is None
            &&& wanted.len() > 0 ==> m1.calls.len() == m.calls.len() + 1
        }),
{
}

/// An upgrade that cannot be done is an error, and nothing is run for it.
pub proof fn an_upgrade_that_cannot_be_done<H: Host>(m: Depot<H>, plan: PlanSpec)
    ensures
        plan.upgrade_unsupported ==> upgraded::<H>(m, plan).0 == m
            && upgraded::<H>(m, plan).1 is Some,
        !plan.upgrade_unsupported ==> upgraded::<H>(m, plan).0.calls.len()
            == m.calls.len() + 1,
        plan.reboot is None ==> rebooted::<H>(m, plan) == (
            m,
            None::<Seq<char>>,
        ),
        plan.reboot is Some ==> rebooted::<H>(m, plan).1 is Some,
{
}

} // verus!
