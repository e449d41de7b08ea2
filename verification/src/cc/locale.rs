//! Setting the locale.

use vstd::prelude::*;

use crate::cc::locale::host::{
    ask_distro_locale, ask_path_exists, ask_plan, ask_subp, ask_system_locale, ask_which, log_debug, logged, steps_of, Place,
    StateSpec, StepSpec,
};
use crate::cc::unit_result;
use crate::show::{is_false, py_str, show, shown_at, switched_off};
use crate::text::{argv2, cat2, cat3, cat4, join, join_with, opt_text};
use crate::value::{get, Node, Object, Val};

pub mod host;
pub mod laws;

pub use crate::cc::locale::host::{Fixture, Host, State, Step};

verus! {

/// The locale where nothing says which.
pub const DEFAULT_LOCALE: &'static str = "en_US.UTF-8";

/// The file that the locale of the system is in.
pub const LOCALE_CONF_FN: &'static str = "/etc/default/locale";

/// The file in which the locale is set, where one is configured. A name without
/// anything in it is none.
pub open spec fn conf_file(cfg: Seq<(Seq<char>, Val)>) -> Option<Seq<char>> {
    match shown_at(cfg, "locale_configfile"@) {
        Some(path) => if path.len() > 0 {
            Some(path)
        } else {
            None
        },
        None => None,
    }
}

/// The file in which the locale is set, where one is configured.
pub fn config_file(cfg: &Object) -> (r: Option<String>)
    ensures
        opt_text(r) == conf_file(cfg@),
{
    match cfg.get("locale_configfile") {
        Some(v) => {
            let path = py_str(v);
            if path.as_str().is_empty() {
                None
            } else {
                Some(path)
            }
        },
        None => None,
    }
}

/// The locale that is set: the first argument, else what is configured, else that of
/// the distribution, else the one for want of any.
pub open spec fn locale_for(args: Val, cfg: Seq<(Seq<char>, Val)>, distro: Option<Seq<char>>) -> Seq<char> {
    match args {
        Val::Array(items) => if items.len() > 0 {
            show(items[0])
        } else {
            configured_locale(cfg, distro)
        },
        _ => configured_locale(cfg, distro),
    }
}

/// The locale that is configured, else that of the distribution, else the one for
/// want of any.
pub open spec fn configured_locale(cfg: Seq<(Seq<char>, Val)>, distro: Option<Seq<char>>) -> Seq<char> {
    match shown_at(cfg, "locale"@) {
        Some(locale) => locale,
        None => match distro {
            Some(locale) => locale,
            None => DEFAULT_LOCALE@,
        },
    }
}

/// The locale that is set.
pub fn configured(args: &Node, cfg: &Object, distro: &Option<String>) -> (r: String)
    ensures
        r@ == locale_for(args@, cfg@, opt_text(*distro)),
{
    if let Node::Array(items) = args {
        if items.len() > 0 {
            assert(crate::value::vals(items@)[0] == items@[0]@);
            return py_str(&items[0]);
        }
        assert(crate::value::vals(items@).len() == 0);
    }
    if let Some(v) = cfg.get("locale") {
        return py_str(v);
    }
    match distro {
        Some(locale) => locale.clone(),
        None => DEFAULT_LOCALE.to_owned(),
    }
}

/// Does one thing. Nothing is run but on the machine itself, and packages are not
/// installed here.
pub open spec fn step_done<H: Host>(m: Place<H>, step: StepSpec, live: bool) -> (Place<H>, Result<(), Seq<char>>) {
    if !live {
        (m, Ok(()))
    } else {
        match step {
            StepSpec::InstallPackages { packages } => (
                m,
                Err(
                    "install_packages is not ported here; "@ + join(packages, " "@)
                        + " would have been installed to apply a locale"@,
                ),
            ),
            StepSpec::LocaleGen { locale } => ask_subp::<H>(m, seq!["locale-gen"@, locale]),
            StepSpec::UpdateLocale { argv } => ask_subp::<H>(m, argv),
        }
    }
}

/// Does one thing after the other, up to the first that fails.
pub open spec fn steps_done<H: Host>(m: Place<H>, steps: Seq<StepSpec>, live: bool) -> (Place<H>, Result<(), Seq<char>>)
    decreases steps.len(),
{
    if steps.len() == 0 {
        (m, Ok(()))
    } else {
        let (m1, done) = step_done::<H>(m, steps[0], live);
        if done is Err {
            (m1, done)
        } else {
            steps_done::<H>(m1, steps.skip(1), live)
        }
    }
}

fn run_step<H: Host>(step: &Step, live: bool, host: &mut H) -> (r: Result<(), String>)
    ensures
        (final(host).machine(), unit_result(r)) == step_done::<H>(old(host).machine(), step@, live),
{
    if !live {
        return Ok(());
    }
    match step {
        Step::InstallPackages { packages } => Err(
            cat3(
                "install_packages is not ported here; ",
                join_with(packages, " ").as_str(),
                " would have been installed to apply a locale",
            ),
        ),
        Step::LocaleGen { locale } => host.subp(&argv2("locale-gen", locale.as_str())),
        Step::UpdateLocale { argv } => host.subp(argv),
    }
}

/// Carries out a plan.
pub fn run<H: Host>(steps: &Vec<Step>, live: bool, host: &mut H) -> (r: Result<(), String>)
    ensures
        (final(host).machine(), unit_result(r)) == steps_done::<H>(old(host).machine(), steps_of(steps@), live),
{
    let ghost all = steps_of(steps@);
    let mut i: usize = 0;
    assert(all.skip(0) =~= all);
    while i < steps.len()
        invariant
            i <= steps@.len(),
            all == steps_of(steps@),
            steps_done::<H>(host.machine(), all.skip(i as int), live) == steps_done::<H>(
                old(host).machine(),
                all,
                live,
            ),
        decreases steps.len() - i,
    {
        assert(all.skip(i as int)[0] == steps@[i as int]@);
        assert(all.skip(i as int).skip(1) =~= all.skip(i + 1));
        match run_step(&steps[i], live, host) {
            Ok(()) => {},
            Err(e) => return Err(e),
        }
        i += 1;
    }
    Ok(())
}

/// Sets a locale.
pub open spec fn locale_set<H: Host>(
    m: Place<H>,
    locale: Seq<char>,
    out_fn: Option<Seq<char>>,
    system: Option<Seq<char>>,
    live: bool,
) -> (Place<H>, Result<(), Seq<char>>) {
    let path = match out_fn {
        Some(path) => path,
        None => LOCALE_CONF_FN@,
    };
    let (m1, conf_fn_exists) = ask_path_exists::<H>(m, path);
    let (m2, has_locale_gen) = ask_which::<H>(m1, "locale-gen"@);
    let (m3, has_update_locale) = ask_which::<H>(m2, "update-locale"@);
    let state = StateSpec { system_locale: system, conf_fn_exists, has_locale_gen, has_update_locale };
    let (m4, steps) = ask_plan::<H>(m3, locale, out_fn, state);
    match steps {
        Err(e) => (m4, Err(e)),
        Ok(steps) => steps_done::<H>(m4, steps, live),
    }
}

/// What is said where no locale is to be set.
pub open spec fn off_text(name: Seq<char>, locale: Seq<char>) -> Seq<char> {
    "Skipping module named "@ + name + ", disabled by config: "@ + locale
}

/// Sets the locale that is to be set, unless that is a word for no.
pub open spec fn applied<H: Host>(
    m: Place<H>,
    name: Seq<char>,
    args: Val,
    cfg: Seq<(Seq<char>, Val)>,
    live: bool,
) -> (Place<H>, Result<(), Seq<char>>) {
    let (m1, system) = ask_system_locale::<H>(m);
    match system {
        Err(e) => (m1, Err(e)),
        Ok(system) => {
            let (m2, distro) = ask_distro_locale::<H>(m1, system);
            let locale = locale_for(args, cfg, distro);
            if switched_off(Val::Text(locale)) {
                (logged::<H>(m2, off_text(name, locale)), Ok(()))
            } else {
                locale_set::<H>(
                    logged::<H>(m2, "Setting locale to "@ + locale),
                    locale,
                    conf_file(cfg),
                    system,
                    live,
                )
            }
        },
    }
}

/// Sets the locale.
pub fn handle_with<H: Host>(name: &str, args: &Node, cfg: &Object, live: bool, host: &mut H) -> (r: Result<(), String>)
    ensures
        (final(host).machine(), unit_result(r)) == applied::<H>(old(host).machine(), name@, args@, cfg@, live),
{
    let system_locale = match host.system_locale() {
        Ok(system) => system,
        Err(e) => return Err(e),
    };
    let distro = host.distro_locale(&system_locale);
    let locale = configured(args, cfg, &distro);
    if is_false(&Node::text(locale.as_str())) {
        log_debug(host, cat4("Skipping module named ", name, ", disabled by config: ", locale.as_str()).as_str());
        return Ok(());
    }
    log_debug(host, cat2("Setting locale to ", locale.as_str()).as_str());
    let out_fn = config_file(cfg);
    let path = match &out_fn {
        Some(path) => path.as_str(),
        None => LOCALE_CONF_FN,
    };
    let conf_fn_exists = host.path_exists(path);
    let has_locale_gen = host.which("locale-gen");
    let has_update_locale = host.which("update-locale");
    let state = State { system_locale, conf_fn_exists, has_locale_gen, has_update_locale };
    match host.plan(locale.as_str(), &out_fn, &state) {
        Ok(steps) => run(&steps, live, host),
        Err(e) => Err(e),
    }
}

// ---------------------------------------------------------------------------
// Laws

/// An argument goes before the configuration, and the configuration before the
/// distribution.
pub proof fn the_nearest_word_counts(
    first: Val,
    rest: Seq<Val>,
    cfg: Seq<(Seq<char>, Val)>,
    distro: Option<Seq<char>>,
    other: Option<Seq<char>>,
)
    ensures
        locale_for(Val::Array(seq![first] + rest), cfg, distro) == show(first),
        get(cfg, "locale"@) is Some ==> locale_for(Val::Null, cfg, distro) == locale_for(Val::Null, cfg, other),
{
}

/// Away from the machine itself, nothing is run.
pub proof fn nothing_is_run_elsewhere<H: Host>(m: Place<H>, steps: Seq<StepSpec>)
    ensures
        steps_done::<H>(m, steps, false) == (m, Ok::<(), Seq<char>>(())),
    decreases steps.len(),
{
    if steps.len() > 0 {
        nothing_is_run_elsewhere::<H>(m, steps.skip(1));
    }
}

}
