//! What is promised of setting the locale.

use vstd::prelude::*;

use crate::cc::locale::{applied, conf_file, locale_for, locale_set, nothing_is_run_elsewhere, step_done};
use crate::cc::locale::host::{ask_path_exists, ask_plan, ask_which, logged, Call, Host, Place, StateSpec, StepSpec};
use crate::show::{show, switched_off};
use crate::value::{get, Val};

verus! {

/// Where nothing says which, the locale is that of the United States in UTF-8.
pub proof fn the_locale_for_want_of_any(cfg: Seq<(Seq<char>, Val)>, distro: Seq<char>)
    ensures
        get(cfg, "locale"@) is None ==> locale_for(Val::Array(Seq::empty()), cfg, None) == "en_US.UTF-8"@,
        get(cfg, "locale"@) is None ==> locale_for(Val::Array(Seq::empty()), cfg, Some(distro)) == distro,
        get(cfg, "locale"@) matches Some(v) ==> locale_for(Val::Array(Seq::empty()), cfg, Some(distro)) == show(v),
{
}

/// A configured file's name counts where it is not empty.
pub proof fn which_file_is_configured(cfg: Seq<(Seq<char>, Val)>)
    ensures
        conf_file(cfg) == (match get(cfg, "locale_configfile"@) {
            Some(v) => if show(v).len() > 0 {
                Some(show(v))
            } else {
                None
            },
            None => None,
        }),
{
}

/// A locale is planned for with what is known of the system: its locale, whether the file
/// is there, and which of the two programs are.
pub proof fn what_is_known_of_the_system<H: Host>(
    m: Place<H>,
    locale: Seq<char>,
    out_fn: Option<Seq<char>>,
    system: Option<Seq<char>>,
    live: bool,
)
    ensures
        ({
            let path = match out_fn {
                Some(path) => path,
                None => "/etc/default/locale"@,
            };
            let (w1, there) = H::reply(m.world, Call::Exists(path));
            let (w2, gen) = H::reply(w1, Call::Which("locale-gen"@));
            let (w3, update) = H::reply(w2, Call::Which("update-locale"@));
            let state = StateSpec {
                system_locale: system,
                conf_fn_exists: there->Flag_0,
                has_locale_gen: gen->Flag_0,
                has_update_locale: update->Flag_0,
            };
            let asked = m.calls.push(Call::Exists(path)).push(Call::Which("locale-gen"@)).push(
                Call::Which("update-locale"@),
            ).push(Call::Plan { locale, out_fn, state });
            let (after, done) = locale_set::<H>(m, locale, out_fn, system, live);
            &&& !live ==> after.calls == asked
            &&& H::reply(w3, Call::Plan { locale, out_fn, state }).1->Steps_0 matches Err(e) ==> after.calls == asked && done
                == Err::<(), Seq<char>>(e)
        }),
{
    let path = match out_fn {
        Some(path) => path,
        None => "/etc/default/locale"@,
    };
    let (m1, there) = ask_path_exists::<H>(m, path);
    let (m2, gen) = ask_which::<H>(m1, "locale-gen"@);
    let (m3, update) = ask_which::<H>(m2, "update-locale"@);
    let state = StateSpec { system_locale: system, conf_fn_exists: there, has_locale_gen: gen, has_update_locale: update };
    let (m4, steps) = ask_plan::<H>(m3, locale, out_fn, state);
    if steps is Ok {
        nothing_is_run_elsewhere::<H>(m4, steps->Ok_0);
    }
}

/// What a step runs on the machine itself.
pub proof fn what_a_step_runs<H: Host>(m: Place<H>, locale: Seq<char>, argv: Seq<Seq<char>>)
    ensures
        step_done::<H>(m, StepSpec::LocaleGen { locale }, true).0.calls == m.calls.push(
            Call::Subp(seq!["locale-gen"@, locale]),
        ),
        step_done::<H>(m, StepSpec::UpdateLocale { argv }, true).0.calls == m.calls.push(Call::Subp(argv)),
        step_done::<H>(m, StepSpec::InstallPackages { packages: argv }, true).0 == m,
        step_done::<H>(m, StepSpec::InstallPackages { packages: argv }, true).1 is Err,
{
}

/// A locale that is a word for no is not set: nothing is asked but what the locale is.
pub proof fn a_word_for_no_sets_none<H: Host>(m: Place<H>, name: Seq<char>, cfg: Seq<(Seq<char>, Val)>, live: bool)
    requires
        get(cfg, "locale"@) == Some(Val::Bool(false)),
        H::reply(m.world, Call::SystemLocale).1->Current_0 is Ok,
    ensures
        switched_off(Val::Text(show(Val::Bool(false)))) ==> {
            let (after, done) = applied::<H>(m, name, Val::Array(Seq::empty()), cfg, live);
            let n = m.calls.len() as int;
            &&& done is Ok
            &&& after.calls.len() == n + 3
            &&& after.calls[n] == Call::SystemLocale
            &&& after.calls[n + 1] is DistroLocale
            &&& after.calls[n + 2] is Report
        },
{
}

/// A locale that is set is the one that is configured, in the file that is configured.
pub proof fn the_configured_locale_is_set<H: Host>(m: Place<H>, name: Seq<char>, cfg: Seq<(Seq<char>, Val)>, locale: Seq<char>, live: bool)
    requires
        get(cfg, "locale"@) == Some(Val::Text(locale)),
        !switched_off(Val::Text(locale)),
        H::reply(m.world, Call::SystemLocale).1->Current_0 is Ok,
    ensures
        ({
            let (w, system) = H::reply(m.world, Call::SystemLocale);
            let m1 = crate::machine::asked(m, Call::SystemLocale, w);
            let call = Call::DistroLocale(system->Current_0->Ok_0);
            let m2 = crate::machine::asked(m1, call, H::reply(w, call).0);
            applied::<H>(m, name, Val::Array(Seq::empty()), cfg, live) == locale_set::<H>(
                logged::<H>(m2, "Setting locale to "@ + locale),
                locale,
                conf_file(cfg),
                system->Current_0->Ok_0,
                live,
            )
        }),
{
}

}
