//! Configuring apt: its mirrors, its sources and the keys for them.

use vstd::prelude::*;

use crate::cc::apt_configure::commands::{
    file_changed, install_packages, packages_installed, run_file_action, run_step, step_run,
};
use crate::cc::apt_configure::convert::{convert_to_v3_apt_format, converted};
use crate::cc::apt_configure::debconf::{apply_debconf_selections, selections_applied};
use crate::cc::apt_configure::host::{
    ask_apt_config_dump, ask_architecture, ask_codename, ask_fqdn, ask_is_snappy, ask_list_dir,
    ask_open_keyring, ask_rename, ask_which, log_debug, log_warn, logged, warned, FileSpec, Site, StepSpec,
};
use crate::cc::apt_configure::keys::{
    add_mirror_keys, all_keyed, commands_needed, ensure_dependencies, further_sources, packages_missing,
    plan_apt_sources, step_specs,
};
use crate::cc::apt_configure::mirror::{
    all_mirrors, find_apt_mirror_info, glob_names, list_renames, names_matching, plan_apt_list_renames, rename_pairs,
    ListRename,
};
use crate::cc::apt_configure::sources::{
    apt_paths, config_actions, file_specs, get_apt_cfg, plan_apt_config, plan_sources_list, sources_actions,
};
use crate::cc::unit_result;
use crate::pattern::{check, pattern_error};
use crate::paths::{path_within, within};
use crate::show::{
    is_false, kind_name, kind_text, py_str, py_truthy, repr, repr_of, show, switched_off, truthy,
};
use crate::text::{behind, cat2, cat3, cat4, opt_text, strip_prefix, texts};
use crate::value::{get, put, Node, Object, Val};

pub mod commands;
pub mod convert;
pub mod debconf;
pub mod finds;
pub mod host;
pub mod keys;
pub mod laws;
pub mod mirror;
pub mod rooted;
pub mod sources;
pub mod suites;

pub use crate::cc::apt_configure::host::{FileAction, Fixture, Host, Step};

verus! {

/// What a source for the repository command looks like, where nothing is said of
/// it.
pub const ADD_APT_REPO_MATCH: &'static str = "^[\\w-]+:\\w";

/// Where apt keeps what it has of repositories.
pub const APT_LISTS: &'static str = "/var/lib/apt/lists";

pub const APT_CONFIG_FN: &'static str = "/etc/apt/apt.conf.d/94cloud-init-config";

pub const APT_PROXY_FN: &'static str = "/etc/apt/apt.conf.d/90cloud-init-aptproxy";

// ---------------------------------------------------------------------------
// Carrying out plans

/// Carries out steps; the first failure ends it.
pub open spec fn steps_run<H: Host>(m: Site<H>, steps: Seq<StepSpec>, root: Seq<char>) -> (
    Site<H>,
    Result<(), Seq<char>>,
)
    decreases steps.len(),
{
    if steps.len() == 0 {
        (m, Ok(()))
    } else {
        let (m1, done) = step_run::<H>(m, steps[0], root);
        match done {
            Err(e) => (m1, Err(e)),
            Ok(()) => steps_run::<H>(m1, steps.skip(1), root),
        }
    }
}

fn run_steps<H: Host>(steps: &Vec<Step>, root: &str, host: &mut H) -> (r: Result<(), String>)
    ensures
        (final(host).machine(), unit_result(r)) == steps_run::<H>(old(host).machine(), step_specs(steps@), root@),
{
    let ghost all = step_specs(steps@);
    let mut i: usize = 0;
    assert(all.skip(0) =~= all);
    while i < steps.len()
        invariant
            i <= steps@.len(),
            all == step_specs(steps@),
            steps_run::<H>(host.machine(), all.skip(i as int), root@) == steps_run::<H>(
                old(host).machine(),
                all,
                root@,
            ),
        decreases steps.len() - i,
    {
        assert(all.skip(i as int)[0] == steps@[i as int]@);
        assert(all.skip(i as int).skip(1) =~= all.skip(i + 1));
        match run_step(&steps[i], root, host) {
            Ok(()) => {},
            Err(e) => return Err(e),
        }
        i += 1;
    }
    Ok(())
}

/// Carries out changes to files; the first failure ends it.
pub open spec fn files_changed<H: Host>(m: Site<H>, actions: Seq<FileSpec>, root: Seq<char>) -> (
    Site<H>,
    Result<(), Seq<char>>,
)
    decreases actions.len(),
{
    if actions.len() == 0 {
        (m, Ok(()))
    } else {
        let (m1, done) = file_changed::<H>(m, actions[0], root);
        match done {
            Err(e) => (m1, Err(e)),
            Ok(()) => files_changed::<H>(m1, actions.skip(1), root),
        }
    }
}

fn change_files<H: Host>(actions: &Vec<FileAction>, root: &str, host: &mut H) -> (r: Result<(), String>)
    ensures
        (final(host).machine(), unit_result(r)) == files_changed::<H>(old(host).machine(), file_specs(actions@), root@),
{
    let ghost all = file_specs(actions@);
    let mut i: usize = 0;
    assert(all.skip(0) =~= all);
    while i < actions.len()
        invariant
            i <= actions@.len(),
            all == file_specs(actions@),
            files_changed::<H>(host.machine(), all.skip(i as int), root@) == files_changed::<H>(
                old(host).machine(),
                all,
                root@,
            ),
        decreases actions.len() - i,
    {
        assert(all.skip(i as int)[0] == actions@[i as int]@);
        assert(all.skip(i as int).skip(1) =~= all.skip(i + 1));
        match run_file_action(&actions[i], root, host) {
            Ok(()) => {},
            Err(e) => return Err(e),
        }
        i += 1;
    }
    Ok(())
}

/// Renames a file. That it could not be is warned of.
pub open spec fn file_renamed<H: Host>(m: Site<H>, from: Seq<char>, to: Seq<char>, root: Seq<char>) -> Site<H> {
    let m1 = logged::<H>(m, "Renaming apt list "@ + within(root, from) + " to "@ + within(root, to));
    let (m2, renamed) = ask_rename::<H>(m1, from, to);
    match renamed {
        Ok(()) => m2,
        Err(e) => warned::<H>(m2, "Failed to rename apt list: "@ + e),
    }
}

fn rename_file<H: Host>(from: &str, to: &str, root: &str, host: &mut H)
    ensures
        final(host).machine() == file_renamed::<H>(old(host).machine(), from@, to@, root@),
{
    log_debug(
        host,
        cat4(
            "Renaming apt list ",
            path_within(root, from).as_str(),
            " to ",
            path_within(root, to).as_str(),
        ).as_str(),
    );
    match host.rename(from, to) {
        Ok(()) => {},
        Err(e) => log_warn(host, cat2("Failed to rename apt list: ", e.as_str()).as_str()),
    }
}

/// Renames files whose names begin in one way so that they begin in another.
pub open spec fn files_renamed<H: Host>(
    m: Site<H>,
    from: Seq<char>,
    to: Seq<char>,
    names: Seq<Seq<char>>,
    root: Seq<char>,
) -> Site<H>
    decreases names.len(),
{
    if names.len() == 0 {
        m
    } else {
        let path = APT_LISTS@ + "/"@ + names[0];
        let after = match behind(path, from) {
            Some(tail) => file_renamed::<H>(m, path, to + tail, root),
            None => m,
        };
        files_renamed::<H>(after, from, to, names.skip(1), root)
    }
}

/// Renames what apt has of mirrors that moved.
pub open spec fn lists_renamed<H: Host>(m: Site<H>, renames: Seq<(Seq<char>, Seq<char>)>, root: Seq<char>) -> Site<H>
    decreases renames.len(),
{
    if renames.len() == 0 {
        m
    } else {
        let (from, to) = renames[0];
        let (m1, names) = ask_list_dir::<H>(m, APT_LISTS@);
        let prefix = match behind(from, APT_LISTS@ + "/"@) {
            Some(prefix) => prefix,
            None => from,
        };
        lists_renamed::<H>(
            files_renamed::<H>(m1, from, to, names_matching(names, prefix + "_*"@), root),
            renames.skip(1),
            root,
        )
    }
}

fn rename_files<H: Host>(from: &str, to: &str, names: &Vec<String>, root: &str, host: &mut H)
    ensures
        final(host).machine() == files_renamed::<H>(old(host).machine(), from@, to@, texts(names@), root@),
{
    let ghost all = texts(names@);
    let mut i: usize = 0;
    assert(all.skip(0) =~= all);
    while i < names.len()
        invariant
            i <= names@.len(),
            all == texts(names@),
            files_renamed::<H>(host.machine(), from@, to@, all.skip(i as int), root@) == files_renamed::<H>(
                old(host).machine(),
                from@,
                to@,
                all,
                root@,
            ),
        decreases names.len() - i,
    {
        assert(all.skip(i as int)[0] == names@[i as int]@);
        assert(all.skip(i as int).skip(1) =~= all.skip(i + 1));
        let path = cat3(APT_LISTS, "/", names[i].as_str());
        if let Some(tail) = strip_prefix(path.as_str(), from) {
            rename_file(path.as_str(), cat2(to, tail.as_str()).as_str(), root, host);
        }
        i += 1;
    }
}

fn rename_lists<H: Host>(renames: &Vec<ListRename>, root: &str, host: &mut H)
    ensures
        final(host).machine() == lists_renamed::<H>(old(host).machine(), rename_pairs(renames@), root@),
{
    let ghost all = rename_pairs(renames@);
    let mut i: usize = 0;
    assert(all.skip(0) =~= all);
    while i < renames.len()
        invariant
            i <= renames@.len(),
            all == rename_pairs(renames@),
            lists_renamed::<H>(host.machine(), all.skip(i as int), root@) == lists_renamed::<H>(
                old(host).machine(),
                all,
                root@,
            ),
        decreases renames.len() - i,
    {
        let from = renames[i].from_prefix.as_str();
        let to = renames[i].to_prefix.as_str();
        assert(all.skip(i as int)[0] == (from@, to@));
        assert(all.skip(i as int).skip(1) =~= all.skip(i + 1));
        let found = host.list_dir(APT_LISTS);
        let prefix = match strip_prefix(from, cat2(APT_LISTS, "/").as_str()) {
            Some(prefix) => prefix,
            None => from.to_owned(),
        };
        let names = glob_names(&found, cat2(prefix.as_str(), "_*").as_str());
        rename_files(from, to, &names, root, host);
        i += 1;
    }
}

// ---------------------------------------------------------------------------
// The sources

/// Places the keys of mirrors, writes the sources, and renames what apt has of
/// mirrors that moved.
pub open spec fn sources_regenerated<H: Host>(
    m: Site<H>,
    cfg: Seq<(Seq<char>, Val)>,
    mirrors: Seq<(Seq<char>, Val)>,
    release: Seq<char>,
    arch: Seq<char>,
    distro: Seq<char>,
    deb822: bool,
    root: Seq<char>,
) -> (Site<H>, Seq<(Seq<char>, Val)>, Result<(), Seq<char>>) {
    let (m1, cfg1, steps, keys) = all_keyed::<H>(m, cfg, Seq::empty());
    match keys {
        Err(e) => (m1, cfg1, Err(e)),
        Ok(keys) => {
            let (m2, ran) = steps_run::<H>(m1, steps, root);
            match ran {
                Err(e) => (m2, cfg1, Err(e)),
                Ok(()) => {
                    let (m3, dump) = ask_apt_config_dump::<H>(m2);
                    let (m4, actions) = sources_actions::<H>(
                        m3,
                        cfg1,
                        release,
                        mirrors,
                        distro,
                        keys,
                        deb822,
                        apt_paths(dump),
                    );
                    match actions {
                        Err(e) => (m4, cfg1, Err(e)),
                        Ok(actions) => {
                            let (m5, changed) = files_changed::<H>(m4, actions, root);
                            match changed {
                                Err(e) => (m5, cfg1, Err(e)),
                                Ok(()) => match list_renames(mirrors, arch, APT_LISTS@) {
                                    Err(e) => (m5, cfg1, Err(e)),
                                    Ok(renames) => (lists_renamed::<H>(m5, renames, root), cfg1, Ok(())),
                                },
                            }
                        },
                    }
                },
            }
        },
    }
}

fn regenerate_sources_list<H: Host>(
    cfg: &mut Object,
    mirrors: &Object,
    release: &str,
    arch: &str,
    distro: &str,
    deb822: bool,
    root: &str,
    host: &mut H,
) -> (r: Result<(), String>)
    ensures
        (final(host).machine(), final(cfg)@, unit_result(r)) == sources_regenerated::<H>(
            old(host).machine(),
            old(cfg)@,
            mirrors@,
            release@,
            arch@,
            distro@,
            deb822,
            root@,
        ),
{
    let mut steps: Vec<Step> = Vec::new();
    assert(step_specs(steps@) =~= Seq::empty());
    let keys = match add_mirror_keys(cfg, host, &mut steps) {
        Ok(keys) => keys,
        Err(e) => return Err(e),
    };
    match run_steps(&steps, root, host) {
        Ok(()) => {},
        Err(e) => return Err(e),
    }
    let dump = host.apt_config_dump();
    let paths = match &dump {
        Some(text) => get_apt_cfg(Some(text.as_str())),
        None => get_apt_cfg(None),
    };
    let actions = match plan_sources_list(cfg, release, mirrors, distro, &keys, deb822, &paths, host) {
        Ok(actions) => actions,
        Err(e) => return Err(e),
    };
    match change_files(&actions, root, host) {
        Ok(()) => {},
        Err(e) => return Err(e),
    }
    match plan_apt_list_renames(mirrors, arch, APT_LISTS) {
        Ok(renames) => {
            rename_lists(&renames, root, host);
            Ok(())
        },
        Err(e) => Err(e),
    }
}

// ---------------------------------------------------------------------------
// The module

/// Why nothing is to be done for an empty configuration, where that is so.
pub open spec fn refused_when_empty<H: Host>(m: Site<H>) -> (Site<H>, Option<Seq<char>>) {
    let (m1, snappy) = ask_is_snappy::<H>(m);
    if snappy {
        (m1, Some("system is snappy."@))
    } else {
        let (m2, get_there) = ask_which::<H>(m1, "apt-get"@);
        if get_there {
            (m2, None)
        } else {
            let (m3, apt_there) = ask_which::<H>(m2, "apt"@);
            (
                m3,
                if apt_there {
                    None
                } else {
                    Some("no apt commands."@)
                },
            )
        }
    }
}

fn refuse_on_empty_apt<H: Host>(host: &mut H) -> (r: Option<String>)
    ensures
        (final(host).machine(), opt_text(r)) == refused_when_empty::<H>(old(host).machine()),
{
    if host.is_snappy() {
        return Some("system is snappy.".to_owned());
    }
    if host.which("apt-get") {
        return None;
    }
    if host.which("apt") {
        None
    } else {
        Some("no apt commands.".to_owned())
    }
}

/// The expression that tells sources for the repository command, where there is
/// one. With sources there must be one.
pub open spec fn repository_matcher(cfg: Seq<(Seq<char>, Val)>) -> Result<Option<Seq<char>>, Seq<char>> {
    let configured = match get(cfg, "add_apt_repo_match"@) {
        Some(v) => v,
        None => Val::Text(ADD_APT_REPO_MATCH@),
    };
    if truthy(configured) {
        match pattern_error(show(configured)) {
            Some(e) => Err(e),
            None => Ok(Some(show(configured))),
        }
    } else if get(cfg, "sources"@) matches Some(Val::Object(sources)) && sources.len() > 0 {
        Err("'NoneType' object is not callable"@)
    } else {
        Ok(None)
    }
}

fn repository_matcher_of(cfg: &Object) -> (r: Result<Option<String>, String>)
    ensures
        crate::cc::apt_configure::host::fetch_result(r) == repository_matcher(cfg@),
{
    let configured = match cfg.get("add_apt_repo_match") {
        Some(v) => v.clone(),
        None => Node::text(ADD_APT_REPO_MATCH),
    };
    if py_truthy(&configured) {
        let pattern = py_str(&configured);
        return match check(pattern.as_str()) {
            Some(e) => Err(e),
            None => Ok(Some(pattern)),
        };
    }
    if let Some(Node::Object(sources)) = cfg.get("sources") {
        if !sources.is_empty() {
            return Err("'NoneType' object is not callable".to_owned());
        }
    }
    Ok(None)
}

/// Whether the sources are to stay as they are.
pub open spec fn preserves(cfg: Seq<(Seq<char>, Val)>) -> bool {
    match get(cfg, "preserve_sources_list"@) {
        Some(v) => !switched_off(v),
        None => !switched_off(Val::Bool(false)),
    }
}

fn preserves_sources(cfg: &Object) -> (r: bool)
    ensures
        r == preserves(cfg@),
{
    match cfg.get("preserve_sources_list") {
        Some(v) => !is_false(v),
        None => {
            let off = Node::Bool(false);
            !is_false(&off)
        },
    }
}

/// Writes the sources where they are not to stay as they are.
pub open spec fn main_sources<H: Host>(
    m: Site<H>,
    cfg: Seq<(Seq<char>, Val)>,
    mirrors: Seq<(Seq<char>, Val)>,
    release: Seq<char>,
    arch: Seq<char>,
    distro: Seq<char>,
    deb822: bool,
    root: Seq<char>,
) -> (Site<H>, Seq<(Seq<char>, Val)>, Result<(), Seq<char>>) {
    if preserves(cfg) {
        (m, cfg, Ok(()))
    } else {
        sources_regenerated::<H>(m, cfg, mirrors, release, arch, distro, deb822, root)
    }
}

/// What follows once the packages that are needed are there. That a file of apt's
/// own configuration could not be changed is warned of, and is no failure.
pub open spec fn sources_set_up<H: Host>(
    m: Site<H>,
    cfg: Seq<(Seq<char>, Val)>,
    mirrors: Seq<(Seq<char>, Val)>,
    matcher: Option<Seq<char>>,
    release: Seq<char>,
    arch: Seq<char>,
    distro: Seq<char>,
    deb822: bool,
    root: Seq<char>,
) -> (Site<H>, Result<(), Seq<char>>) {
    let (m1, cfg1, done) = main_sources::<H>(m, cfg, mirrors, release, arch, distro, deb822, root);
    match done {
        Err(e) => (m1, Err(e)),
        Ok(()) => {
            let (m2, actions) = config_actions::<H>(m1, cfg1, APT_PROXY_FN@, APT_CONFIG_FN@);
            let (after, changed) = files_changed::<H>(m2, actions, root);
            let m3 = match changed {
                Ok(()) => after,
                Err(e) => warned::<H>(after, "Failed to apply proxy or apt config info: "@ + e),
            };
            match get(cfg1, "sources"@) {
                None => (m3, Ok(())),
                Some(sources) => {
                    let params = put(mirrors, "RELEASE"@, Val::Text(release));
                    let (m4, params1, steps) = further_sources::<H>(m3, sources, params, matcher);
                    match steps {
                        Err(e) => (m4, Err(e)),
                        Ok(steps) => steps_run::<H>(m4, steps, root),
                    }
                },
            }
        },
    }
}

fn set_up_sources<H: Host>(
    cfg: &mut Object,
    mirrors: &Object,
    matcher: &Option<String>,
    release: &str,
    arch: &str,
    distro: &str,
    deb822: bool,
    root: &str,
    host: &mut H,
) -> (r: Result<(), String>)
    ensures
        (final(host).machine(), unit_result(r)) == sources_set_up::<H>(
            old(host).machine(),
            old(cfg)@,
            mirrors@,
            opt_text(*matcher),
            release@,
            arch@,
            distro@,
            deb822,
            root@,
        ),
{
    if !preserves_sources(cfg) {
        match regenerate_sources_list(cfg, mirrors, release, arch, distro, deb822, root, host) {
            Ok(()) => {},
            Err(e) => return Err(e),
        }
    }
    let actions = plan_apt_config(cfg, APT_PROXY_FN, APT_CONFIG_FN, host);
    match change_files(&actions, root, host) {
        Ok(()) => {},
        Err(e) => log_warn(host, cat2("Failed to apply proxy or apt config info: ", e.as_str()).as_str()),
    }
    let sources = match cfg.get("sources") {
        Some(sources) => sources,
        None => return Ok(()),
    };
    let mut params = mirrors.clone();
    params.insert("RELEASE", Node::text(release));
    match plan_apt_sources(sources, host, &mut params, matcher) {
        Ok(steps) => run_steps(&steps, root, host),
        Err(e) => Err(e),
    }
}

/// Applies the configuration of apt, which is not to be left as it is.
pub open spec fn applied_whole<H: Host>(
    m: Site<H>,
    cfg: Seq<(Seq<char>, Val)>,
    distro: Seq<char>,
    deb822: bool,
    root: Seq<char>,
) -> (Site<H>, Result<(), Seq<char>>) {
    let m0 = logged::<H>(m, "handling apt config: "@ + repr(Val::Object(cfg)));
    let (m1, release) = ask_codename::<H>(m0);
    match release {
        None => (m1, Err("'codename'"@)),
        Some(release) => {
            let (m2, arch) = ask_architecture::<H>(m1);
            match arch {
                Err(e) => (m2, Err(e)),
                Ok(arch) => {
                    let (m3, fqdn) = ask_fqdn::<H>(m2);
                    let (m4, mirrors) = all_mirrors::<H>(m3, cfg, arch, fqdn, distro);
                    match mirrors {
                        Err(e) => (m4, Err(e)),
                        Ok(mirrors) => {
                            let m5 = logged::<H>(m4, "Apt Mirror info: "@ + repr(Val::Object(mirrors)));
                            match repository_matcher(cfg) {
                                Err(e) => (m5, Err(e)),
                                Ok(matcher) => {
                                    let (m6, missing) = packages_missing::<H>(
                                        m5,
                                        commands_needed(cfg, matcher),
                                        Seq::empty(),
                                    );
                                    let (m7, installed) = if missing.len() > 0 {
                                        packages_installed::<H>(m6, missing, root)
                                    } else {
                                        (m6, Ok(()))
                                    };
                                    match installed {
                                        Err(e) => (m7, Err(e)),
                                        Ok(()) => sources_set_up::<H>(
                                            m7,
                                            cfg,
                                            mirrors,
                                            matcher,
                                            release,
                                            arch,
                                            distro,
                                            deb822,
                                            root,
                                        ),
                                    }
                                },
                            }
                        },
                    }
                },
            }
        },
    }
}

/// Applies the configuration of apt. An empty one is left alone where there is no
/// apt to configure.
pub open spec fn applied<H: Host>(
    m: Site<H>,
    cfg: Seq<(Seq<char>, Val)>,
    distro: Seq<char>,
    deb822: bool,
    root: Seq<char>,
) -> (Site<H>, Result<(), Seq<char>>) {
    let (m0, refused) = if cfg.len() == 0 {
        refused_when_empty::<H>(m)
    } else {
        (m, None)
    };
    match refused {
        Some(reason) => (logged::<H>(m0, "Nothing to do: No apt config and "@ + reason), Ok(())),
        None => applied_whole::<H>(m0, cfg, distro, deb822, root),
    }
}

pub fn apply_apt<H: Host>(cfg: &mut Object, distro: &str, deb822: bool, root: &str, host: &mut H) -> (r: Result<
    (),
    String,
>)
    ensures
        (final(host).machine(), unit_result(r)) == applied::<H>(
            old(host).machine(),
            old(cfg)@,
            distro@,
            deb822,
            root@,
        ),
{
    if cfg.is_empty() {
        if let Some(reason) = refuse_on_empty_apt(host) {
            log_debug(host, cat2("Nothing to do: No apt config and ", reason.as_str()).as_str());
            return Ok(());
        }
    }
    let shown = Node::Object(cfg.clone());
    log_debug(host, cat2("handling apt config: ", repr_of(&shown).as_str()).as_str());
    let release = match host.codename() {
        Some(release) => release,
        None => return Err("'codename'".to_owned()),
    };
    let arch = match host.architecture() {
        Ok(arch) => arch,
        Err(e) => return Err(e),
    };
    let fqdn = host.fqdn();
    let mirrors = match find_apt_mirror_info(cfg, arch.as_str(), fqdn.as_str(), distro, host) {
        Ok(mirrors) => mirrors,
        Err(e) => return Err(e),
    };
    let shown = Node::Object(mirrors.clone());
    log_debug(host, cat2("Apt Mirror info: ", repr_of(&shown).as_str()).as_str());
    let matcher = match repository_matcher_of(cfg) {
        Ok(matcher) => matcher,
        Err(e) => return Err(e),
    };
    let missing = ensure_dependencies(cfg, &matcher, host);
    assert(texts(missing@).len() == missing@.len());
    if missing.len() > 0 {
        match install_packages(&missing, root, host) {
            Ok(()) => {},
            Err(e) => return Err(e),
        }
    }
    set_up_sources(cfg, &mirrors, &matcher, release.as_str(), arch.as_str(), distro, deb822, root, host)
}

/// What stands under `apt`, which must be a mapping where it is there.
pub open spec fn apt_block(cfg: Seq<(Seq<char>, Val)>) -> Result<Seq<(Seq<char>, Val)>, Seq<char>> {
    match get(cfg, "apt"@) {
        None => Ok(Seq::empty()),
        Some(Val::Object(apt)) => Ok(apt),
        Some(other) => Err("Expected dictionary for 'apt' config, found <class '"@ + kind_text(other) + "'>"@),
    }
}

/// Configures apt in a tree.
pub open spec fn configured<H: Host>(
    m: Site<H>,
    cfg: Seq<(Seq<char>, Val)>,
    distro: Seq<char>,
    deb822: bool,
    root: Seq<char>,
) -> (Site<H>, Result<(), Seq<char>>) {
    let (m1, cfg1, done) = converted::<H>(m, cfg);
    match done {
        Err(e) => (m1, Err(e)),
        Ok(()) => match apt_block(cfg1) {
            Err(e) => (m1, Err(e)),
            Ok(apt) => {
                let (m2, selected) = selections_applied::<H>(m1, apt, root);
                match selected {
                    Err(e) => (m2, Err(e)),
                    Ok(()) => {
                        let (m3, opened) = ask_open_keyring::<H>(m2);
                        match opened {
                            Err(e) => (m3, Err(e)),
                            Ok(()) => applied::<H>(m3, apt, distro, deb822, root),
                        }
                    },
                }
            },
        },
    }
}

/// Configures apt in a tree, which is the machine's own where it is the root.
pub fn handle_with<H: Host>(cfg: &Object, distro: &str, deb822: bool, root: &str, host: &mut H) -> (r: Result<
    (),
    String,
>)
    ensures
        (final(host).machine(), unit_result(r)) == configured::<H>(
            old(host).machine(),
            cfg@,
            distro@,
            deb822,
            root@,
        ),
{
    let mut cfg = cfg.clone();
    match convert_to_v3_apt_format(&mut cfg, host) {
        Ok(()) => {},
        Err(e) => return Err(e),
    }
    let mut apt = match cfg.get("apt") {
        None => Object::new(),
        Some(Node::Object(apt)) => apt.clone(),
        Some(other) => return Err(
            cat3("Expected dictionary for 'apt' config, found <class '", kind_name(other).as_str(), "'>"),
        ),
    };
    match apply_debconf_selections(&apt, root, host) {
        Ok(()) => {},
        Err(e) => return Err(e),
    }
    match host.open_keyring() {
        Ok(()) => {},
        Err(e) => return Err(e),
    }
    apply_apt(&mut apt, distro, deb822, root, host)
}

}
