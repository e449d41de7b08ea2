//! A tree that is not the machine's own has no command run for it.

use vstd::prelude::*;

use crate::cc::apt_configure::commands::{
    commands_after, commands_in, file_changed, is_live, packages_installed, rooted_tree_only_takes_files, step_run,
};
use crate::cc::apt_configure::convert::{
    converted, free_key, listed_entry, listed_name, sources_by_name, usually_named,
};
use crate::cc::apt_configure::debconf::{selections_applied, unconfiguring_told};
use crate::cc::apt_configure::host::{
    ask_draw_name, ask_list_dir, ask_render, ask_resolve, ask_which, logged, FileSpec, Host, Site, StepSpec,
};
use crate::cc::apt_configure::keys::{
    all_keyed, key_placed, mirrors_keyed, package_of, packages_missing, source_planned, sources_planned,
};
use crate::cc::apt_configure::mirror::{
    all_mirrors, first_resolvable, mirror_for, named_addresses, names_matching, names_resolved, resolvable,
};
use crate::cc::apt_configure::sources::{config_actions, rendered_sources, sources_actions, sources_template};
use crate::cc::apt_configure::suites::{
    known_suite, release_params, source_lines, suite_names, without_in_lines, without_some,
};
use crate::cc::apt_configure::{
    applied_whole, configured, file_renamed, files_changed, files_renamed, lists_renamed, sources_regenerated,
    sources_set_up, steps_run, APT_LISTS,
};
use crate::order::with_text;
use crate::show::repr;
use crate::space::pieces;
use crate::text::behind;
use crate::value::{put, Val};

verus! {

broadcast proof fn quiet_free_key<H: Host>(m: Site<H>, taken: Seq<(Seq<char>, Val)>, postfix: Seq<char>, fuel: nat)
    ensures
        commands_in((#[trigger] free_key::<H>(m, taken, postfix, fuel)).0.calls) == commands_in(m.calls),
    decreases fuel,
{
    broadcast use commands_after;

    if fuel > 0 {
        quiet_free_key::<H>(ask_draw_name::<H>(m).0, taken, postfix, (fuel - 1) as nat);
    }
}

broadcast proof fn quiet_sources_by_name<H: Host>(m: Site<H>, items: Seq<Val>, sources: Seq<(Seq<char>, Val)>)
    ensures
        commands_in((#[trigger] sources_by_name::<H>(m, items, sources)).0.calls) == commands_in(m.calls),
    decreases items.len(),
{
    broadcast use {
        commands_after,
        quiet_free_key,
    };

    if items.len() > 0 {
        match listed_name(items[0]) {
            Some(name) => {
                let more = put(sources, name, Val::Object(listed_entry(items[0])));
                quiet_sources_by_name::<H>(m, items.skip(1), more);
            },
            None => {
                let (m1, key) = free_key::<H>(m, sources, "cloud_config_sources.list"@, u64::MAX as nat);
                if let Ok(key) = key {
                    quiet_sources_by_name::<H>(m1, items.skip(1), put(sources, key, usually_named(items[0])));
                }
            },
        }
    }
}

broadcast proof fn quiet_converted<H: Host>(m: Site<H>, cfg: Seq<(Seq<char>, Val)>)
    ensures
        commands_in((#[trigger] converted::<H>(m, cfg)).0.calls) == commands_in(m.calls),
{
    broadcast use {
        commands_after,
        quiet_sources_by_name,
    };
}

broadcast proof fn quiet_unconfiguring_told<H: Host>(m: Site<H>, names: Seq<Seq<char>>)
    ensures
        commands_in((#[trigger] unconfiguring_told::<H>(m, names)).calls) == commands_in(m.calls),
    decreases names.len(),
{
    broadcast use commands_after;

    if names.len() > 0 {
        quiet_unconfiguring_told::<H>(logged::<H>(m, "unconfiguring "@ + names[0]), names.skip(1));
    }
}

broadcast proof fn quiet_selections_applied<H: Host>(m: Site<H>, cfg: Seq<(Seq<char>, Val)>, root: Seq<char>)
    requires
        !is_live(root),
    ensures
        commands_in((#[trigger] selections_applied::<H>(m, cfg, root)).0.calls) == commands_in(m.calls),
{
    broadcast use {
        commands_after,
        quiet_unconfiguring_told,
    };
}

broadcast proof fn quiet_names_resolved<H: Host>(m: Site<H>, names: Seq<Seq<char>>, lines: Seq<Seq<char>>, addresses: Seq<Seq<char>>)
    ensures
        commands_in((#[trigger] names_resolved::<H>(m, names, lines, addresses)).0.calls) == commands_in(m.calls),
    decreases names.len(),
{
    broadcast use commands_after;

    if names.len() > 0 {
        let (m1, found) = ask_resolve::<H>(m, names[0]);
        quiet_names_resolved::<H>(
            m1,
            names.skip(1),
            lines + named_addresses(names[0], found),
            addresses + found,
        );
    }
}

broadcast proof fn quiet_resolvable<H: Host>(m: Site<H>, url: Seq<char>)
    ensures
        commands_in((#[trigger] resolvable::<H>(m, url)).0.calls) == commands_in(m.calls),
{
    broadcast use {
        commands_after,
        quiet_names_resolved,
    };
}

broadcast proof fn quiet_first_resolvable<H: Host>(m: Site<H>, candidates: Seq<Seq<char>>)
    ensures
        commands_in((#[trigger] first_resolvable::<H>(m, candidates)).0.calls) == commands_in(m.calls),
    decreases candidates.len(),
{
    broadcast use {
        commands_after,
        quiet_resolvable,
    };

    if candidates.len() > 0 {
        quiet_first_resolvable::<H>(resolvable::<H>(m, candidates[0]).0, candidates.skip(1));
    }
}

broadcast proof fn quiet_mirror_for<H: Host>(m: Site<H>, cfg: Seq<(Seq<char>, Val)>, kind: Seq<char>, arch: Seq<char>, fqdn: Seq<char>, distro: Seq<char>)
    ensures
        commands_in((#[trigger] mirror_for::<H>(m, cfg, kind, arch, fqdn, distro)).0.calls) == commands_in(m.calls),
{
    broadcast use {
        commands_after,
        quiet_first_resolvable,
    };
}

broadcast proof fn quiet_all_mirrors<H: Host>(m: Site<H>, cfg: Seq<(Seq<char>, Val)>, arch: Seq<char>, fqdn: Seq<char>, distro: Seq<char>)
    ensures
        commands_in((#[trigger] all_mirrors::<H>(m, cfg, arch, fqdn, distro)).0.calls) == commands_in(m.calls),
{
    broadcast use {
        commands_after,
        quiet_mirror_for,
    };
}

broadcast proof fn quiet_packages_missing<H: Host>(m: Site<H>, commands: Seq<Seq<char>>, out: Seq<Seq<char>>)
    ensures
        commands_in((#[trigger] packages_missing::<H>(m, commands, out)).0.calls) == commands_in(m.calls),
    decreases commands.len(),
{
    broadcast use commands_after;

    if commands.len() > 0 {
        let (m1, there) = ask_which::<H>(m, commands[0]);
        if there {
            quiet_packages_missing::<H>(m1, commands.skip(1), out);
        } else {
            quiet_packages_missing::<H>(m1, commands.skip(1), with_text(out, package_of(commands[0])));
        }
    }
}

broadcast proof fn quiet_key_placed<H: Host>(m: Site<H>, ent: Seq<(Seq<char>, Val)>, hardened: bool, name: Option<Seq<char>>, steps: Seq<StepSpec>)
    ensures
        commands_in((#[trigger] key_placed::<H>(m, ent, hardened, name, steps)).0.calls) == commands_in(m.calls),
{
    broadcast use commands_after;
}

broadcast proof fn quiet_mirrors_keyed<H: Host>(m: Site<H>, items: Seq<Val>, kind: Seq<char>, steps: Seq<StepSpec>, keys: Seq<(Seq<char>, Val)>)
    ensures
        commands_in((#[trigger] mirrors_keyed::<H>(m, items, kind, steps, keys)).0.calls) == commands_in(m.calls),
    decreases items.len(),
{
    broadcast use {
        commands_after,
        quiet_key_placed,
    };

    if items.len() > 0 {
        match items[0] {
            Val::Object(ent) => {
                let (m1, ent1, steps1, placed) = key_placed::<H>(m, ent, false, Some(kind), steps);
                if let Ok(path) = placed {
                    let keys1 = match path {
                        Some(p) => if p.len() > 0 {
                            put(keys, kind + "_key"@, Val::Text(p))
                        } else {
                            keys
                        },
                        None => keys,
                    };
                    quiet_mirrors_keyed::<H>(m1, items.skip(1), kind, steps1, keys1);
                }
            },
            _ => {
                quiet_mirrors_keyed::<H>(m, items.skip(1), kind, steps, keys);
            },
        }
    }
}

broadcast proof fn quiet_all_keyed<H: Host>(m: Site<H>, cfg: Seq<(Seq<char>, Val)>, steps: Seq<StepSpec>)
    ensures
        commands_in((#[trigger] all_keyed::<H>(m, cfg, steps)).0.calls) == commands_in(m.calls),
{
    broadcast use {
        commands_after,
        quiet_mirrors_keyed,
    };
}

broadcast proof fn quiet_suite_names<H: Host>(m: Site<H>, suites: Seq<Seq<char>>, release: Seq<char>, out: Seq<Seq<char>>)
    ensures
        commands_in((#[trigger] suite_names::<H>(m, suites, release, out)).0.calls) == commands_in(m.calls),
    decreases suites.len(),
{
    broadcast use commands_after;

    if suites.len() > 0 {
        let (m1, name) = ask_render::<H>(m, known_suite(suites[0]), release_params(release));
        if let Ok(name) = name {
            quiet_suite_names::<H>(m1, suites.skip(1), release, out.push(name));
        }
    }
}

broadcast proof fn quiet_without_in_lines<H: Host>(m: Site<H>, suites: Seq<Seq<char>>, src: Seq<char>, release: Seq<char>)
    ensures
        commands_in((#[trigger] without_in_lines::<H>(m, suites, src, release)).0.calls) == commands_in(m.calls),
    decreases suites.len(),
{
    broadcast use commands_after;

    if suites.len() > 0 {
        let (m1, name) = ask_render::<H>(m, known_suite(suites[0]), release_params(release));
        if let Ok(name) = name {
            let m2 = logged::<H>(m1, "Disabling suite "@ + known_suite(suites[0]) + " as "@ + name);
            if let Ok(rest) = source_lines(pieces(src), name, Seq::empty()) {
                quiet_without_in_lines::<H>(m2, suites.skip(1), rest, release);
            }
        }
    }
}

broadcast proof fn quiet_without_some<H: Host>(m: Site<H>, suites: Seq<Seq<char>>, src: Seq<char>, release: Seq<char>)
    ensures
        commands_in((#[trigger] without_some::<H>(m, suites, src, release)).0.calls) == commands_in(m.calls),
{
    broadcast use {
        commands_after,
        quiet_suite_names,
        quiet_without_in_lines,
    };
}

broadcast proof fn quiet_sources_template<H: Host>(m: Site<H>, cfg: Seq<(Seq<char>, Val)>, distro: Seq<char>, deb822: bool)
    ensures
        commands_in((#[trigger] sources_template::<H>(m, cfg, distro, deb822)).0.calls) == commands_in(m.calls),
{
    broadcast use commands_after;
}

broadcast proof fn quiet_rendered_sources<H: Host>(m: Site<H>, cfg: Seq<(Seq<char>, Val)>, template: Seq<char>, rendered: Seq<char>, release: Seq<char>, distro: Seq<char>, deb822: bool, paths: (Seq<char>, Seq<char>))
    ensures
        commands_in((#[trigger] rendered_sources::<H>(m, cfg, template, rendered, release, distro, deb822, paths)).0.calls) == commands_in(m.calls),
{
    broadcast use {
        commands_after,
        quiet_without_some,
    };
}

broadcast proof fn quiet_sources_actions<H: Host>(m: Site<H>, cfg: Seq<(Seq<char>, Val)>, release: Seq<char>, mirrors: Seq<(Seq<char>, Val)>, distro: Seq<char>, keys: Seq<(Seq<char>, Val)>, deb822: bool, paths: (Seq<char>, Seq<char>))
    ensures
        commands_in((#[trigger] sources_actions::<H>(m, cfg, release, mirrors, distro, keys, deb822, paths)).0.calls) == commands_in(m.calls),
{
    broadcast use {
        commands_after,
        quiet_sources_template,
        quiet_rendered_sources,
    };
}

broadcast proof fn quiet_config_actions<H: Host>(m: Site<H>, cfg: Seq<(Seq<char>, Val)>, proxy_file: Seq<char>, config_file: Seq<char>)
    ensures
        commands_in((#[trigger] config_actions::<H>(m, cfg, proxy_file, config_file)).0.calls) == commands_in(m.calls),
{
    broadcast use commands_after;
}

broadcast proof fn quiet_source_planned<H: Host>(m: Site<H>, name: Seq<char>, ent: Seq<(Seq<char>, Val)>, params: Seq<(Seq<char>, Val)>, matcher: Option<Seq<char>>, steps: Seq<StepSpec>)
    ensures
        commands_in((#[trigger] source_planned::<H>(m, name, ent, params, matcher, steps)).0.calls) == commands_in(m.calls),
{
    broadcast use {
        commands_after,
        quiet_key_placed,
    };
}

broadcast proof fn quiet_sources_planned<H: Host>(m: Site<H>, sources: Seq<(Seq<char>, Val)>, params: Seq<(Seq<char>, Val)>, matcher: Option<Seq<char>>, steps: Seq<StepSpec>)
    ensures
        commands_in((#[trigger] sources_planned::<H>(m, sources, params, matcher, steps)).0.calls) == commands_in(m.calls),
    decreases sources.len(),
{
    broadcast use {
        commands_after,
        quiet_source_planned,
    };

    if sources.len() > 0 {
        let m0 = logged::<H>(m, "adding source/key '"@ + repr(sources[0].1) + "'"@);
        if let Val::Object(ent) = sources[0].1 {
            let (m1, params1, planned) = source_planned::<H>(m0, sources[0].0, ent, params, matcher, steps);
            if let Ok(steps1) = planned {
                quiet_sources_planned::<H>(m1, sources.skip(1), params1, matcher, steps1);
            }
        }
    }
}

broadcast proof fn quiet_steps_run<H: Host>(m: Site<H>, steps: Seq<StepSpec>, root: Seq<char>)
    requires
        !is_live(root),
    ensures
        commands_in((#[trigger] steps_run::<H>(m, steps, root)).0.calls) == commands_in(m.calls),
    decreases steps.len(),
{
    broadcast use commands_after;

    if steps.len() > 0 {
        rooted_tree_only_takes_files::<H>(m, steps[0], Seq::empty(), root);
        quiet_steps_run::<H>(step_run::<H>(m, steps[0], root).0, steps.skip(1), root);
    }
}

broadcast proof fn quiet_files_changed<H: Host>(m: Site<H>, actions: Seq<FileSpec>, root: Seq<char>)
    ensures
        commands_in((#[trigger] files_changed::<H>(m, actions, root)).0.calls) == commands_in(m.calls),
    decreases actions.len(),
{
    broadcast use commands_after;

    if actions.len() > 0 {
        quiet_files_changed::<H>(file_changed::<H>(m, actions[0], root).0, actions.skip(1), root);
    }
}

broadcast proof fn quiet_files_renamed<H: Host>(m: Site<H>, from: Seq<char>, to: Seq<char>, names: Seq<Seq<char>>, root: Seq<char>)
    ensures
        commands_in((#[trigger] files_renamed::<H>(m, from, to, names, root)).calls) == commands_in(m.calls),
    decreases names.len(),
{
    broadcast use commands_after;

    if names.len() > 0 {
        let path = APT_LISTS@ + "/"@ + names[0];
        let after = match behind(path, from) {
            Some(tail) => file_renamed::<H>(m, path, to + tail, root),
            None => m,
        };
        quiet_files_renamed::<H>(after, from, to, names.skip(1), root);
    }
}

broadcast proof fn quiet_lists_renamed<H: Host>(m: Site<H>, renames: Seq<(Seq<char>, Seq<char>)>, root: Seq<char>)
    ensures
        commands_in((#[trigger] lists_renamed::<H>(m, renames, root)).calls) == commands_in(m.calls),
    decreases renames.len(),
{
    broadcast use {
        commands_after,
        quiet_files_renamed,
    };

    if renames.len() > 0 {
        let (from, to) = renames[0];
        let (m1, names) = ask_list_dir::<H>(m, APT_LISTS@);
        let prefix = match behind(from, APT_LISTS@ + "/"@) {
            Some(prefix) => prefix,
            None => from,
        };
        quiet_lists_renamed::<H>(
            files_renamed::<H>(m1, from, to, names_matching(names, prefix + "_*"@), root),
            renames.skip(1),
            root,
        );
    }
}

broadcast proof fn quiet_sources_regenerated<H: Host>(m: Site<H>, cfg: Seq<(Seq<char>, Val)>, mirrors: Seq<(Seq<char>, Val)>, release: Seq<char>, arch: Seq<char>, distro: Seq<char>, deb822: bool, root: Seq<char>)
    requires
        !is_live(root),
    ensures
        commands_in((#[trigger] sources_regenerated::<H>(m, cfg, mirrors, release, arch, distro, deb822, root)).0.calls) == commands_in(m.calls),
{
    broadcast use {
        commands_after,
        quiet_all_keyed,
        quiet_steps_run,
        quiet_sources_actions,
        quiet_files_changed,
        quiet_lists_renamed,
    };
}

broadcast proof fn quiet_sources_set_up<H: Host>(m: Site<H>, cfg: Seq<(Seq<char>, Val)>, mirrors: Seq<(Seq<char>, Val)>, matcher: Option<Seq<char>>, release: Seq<char>, arch: Seq<char>, distro: Seq<char>, deb822: bool, root: Seq<char>)
    requires
        !is_live(root),
    ensures
        commands_in((#[trigger] sources_set_up::<H>(m, cfg, mirrors, matcher, release, arch, distro, deb822, root)).0.calls) == commands_in(m.calls),
{
    broadcast use {
        commands_after,
        quiet_sources_regenerated,
        quiet_config_actions,
        quiet_files_changed,
        quiet_sources_planned,
        quiet_steps_run,
    };
}

broadcast proof fn quiet_applied_whole<H: Host>(m: Site<H>, cfg: Seq<(Seq<char>, Val)>, distro: Seq<char>, deb822: bool, root: Seq<char>)
    requires
        !is_live(root),
    ensures
        commands_in((#[trigger] applied_whole::<H>(m, cfg, distro, deb822, root)).0.calls) == commands_in(m.calls),
{
    broadcast use {
        commands_after,
        quiet_all_mirrors,
        quiet_packages_missing,
        quiet_sources_set_up,
    };

    assert forall|n: Site<H>, names: Seq<Seq<char>>| commands_in(
        (#[trigger] packages_installed::<H>(n, names, root)).0.calls,
    ) == commands_in(n.calls) by {
        rooted_tree_only_takes_files::<H>(n, StepSpec::UpdatePackageSources, names, root);
    }
}

/// Configuring apt in a tree that is not the machine's own has the machine run no
/// command that changes it, whatever the configuration and whatever the machine
/// answers.
pub proof fn a_rooted_tree_has_no_command_run<H: Host>(
    m: Site<H>,
    cfg: Seq<(Seq<char>, Val)>,
    distro: Seq<char>,
    deb822: bool,
    root: Seq<char>,
)
    requires
        !is_live(root),
    ensures
        commands_in(configured::<H>(m, cfg, distro, deb822, root).0.calls) == commands_in(m.calls),
{
    broadcast use {commands_after, quiet_converted, quiet_selections_applied, quiet_applied_whole};

}

}
