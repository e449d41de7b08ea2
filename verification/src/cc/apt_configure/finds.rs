//! What is looked for when apt is configured, and in which order things happen.

use vstd::prelude::*;

use crate::cc::apt_configure::{
    apt_block, files_renamed, main_sources, refused_when_empty, repository_matcher, sources_regenerated, step_run,
    steps_run, APT_LISTS,
};
use crate::cc::apt_configure::debconf::{
    cloud_init_cleaned, files_removed, installed_in, installed_on, names_on, package_on, packages_on, paths_in,
    shown_under,
};
use crate::cc::apt_configure::host::{logged, tool_logged, Call, Host, Site, StepSpec};
use crate::cc::apt_configure::keys::{
    any_has_key, commands_needed, has_key, key_name, last_part, package_of, packages_missing, sources_planned, stem,
    step_for,
};
use crate::cc::apt_configure::mirror::{
    bad_names, distinct, dns_mirror, first_resolvable, mirror_found, names_matching, names_resolved, redirected,
    resolvable, star_matches, zone,
};
use crate::cc::apt_configure::sources::{last_setting, setting_on};
use crate::cc::apt_configure::suites::{has_suites, indented, other_lines, source_line, source_lines, stanza, stanzas};
use crate::machine::asked;
use crate::order::with_text;
use crate::pattern::pattern_error;
use crate::show::{list_repr, show};
use crate::space::{all_within, Class};
use crate::text::{find, find_from_is_first, split, stands_at, starts};
use crate::text::laws::{last_found, the_rest_stands_behind};
use crate::value::{get, Val};

verus! {

/// A zone is named under either spelling, or under the placement where the top names
/// none.
pub proof fn where_the_zone_is_named(metadata: Seq<(Seq<char>, Val)>, name: Seq<char>, placement: Seq<(Seq<char>, Val)>)
    requires
        name.len() > 0,
    ensures
        get(metadata, "availability-zone"@) == Some(Val::Text(name)) ==> zone(metadata) == Some(name),
        get(metadata, "availability-zone"@) is None && get(metadata, "availability_zone"@) == Some(Val::Text(name))
            ==> zone(metadata) == Some(name),
        get(metadata, "availability-zone"@) is None && get(metadata, "availability_zone"@) is None && get(
            metadata,
            "placement"@,
        ) == Some(Val::Object(placement)) && get(placement, "availability-zone"@) == Some(Val::Text(name)) ==> zone(
            metadata,
        ) == Some(name),
        get(metadata, "availability-zone"@) is None && get(metadata, "availability_zone"@) is None && get(
            metadata,
            "placement"@,
        ) is None ==> zone(metadata) is None,
{
}

/// A pattern without a star is the form of itself alone.
pub proof fn a_pattern_without_a_star(pattern: Seq<char>, text: Seq<char>)
    requires
        !pattern.contains('*'),
    ensures
        star_matches(pattern, text) <==> text == pattern,
    decreases pattern.len(),
{
    if pattern.len() > 0 {
        assert(pattern.contains(pattern[0]));
        assert forall|c: char| pattern.skip(1).contains(c) implies pattern.contains(c) by {
            let i = choose|i: int| 0 <= i < pattern.skip(1).len() && pattern.skip(1)[i] == c;
            assert(pattern[i + 1] == c);
        }
        if text.len() > 0 {
            a_pattern_without_a_star(pattern.skip(1), text.skip(1));
            if text.skip(1) == pattern.skip(1) && text[0] == pattern[0] {
                assert(text =~= seq![text[0]] + text.skip(1));
                assert(pattern =~= seq![pattern[0]] + pattern.skip(1));
            }
        }
    } else {
        assert(text.len() == 0 ==> text =~= pattern);
    }
}

/// A star at the end of a pattern stands for anything.
pub proof fn a_star_stands_for_anything(prefix: Seq<char>, text: Seq<char>)
    requires
        !prefix.contains('*'),
    ensures
        star_matches(prefix + "*"@, text) <==> starts(text, prefix),
    decreases prefix.len(),
{
    reveal_strlit("*");
    let pattern = prefix + "*"@;
    if prefix.len() > 0 {
        assert(prefix.contains(prefix[0]));
        assert(pattern[0] == prefix[0]);
        assert(pattern.skip(1) =~= prefix.skip(1) + "*"@);
        assert forall|c: char| prefix.skip(1).contains(c) implies prefix.contains(c) by {
            let i = choose|i: int| 0 <= i < prefix.skip(1).len() && prefix.skip(1)[i] == c;
            assert(prefix[i + 1] == c);
        }
        if text.len() > 0 {
            a_star_stands_for_anything(prefix.skip(1), text.skip(1));
            let n = prefix.len() as int;
            if starts(text, prefix) {
                assert(text.skip(1).subrange(0, n - 1) =~= text.subrange(0, n).skip(1));
                assert(text[0] == text.subrange(0, n)[0]);
            }
            if text[0] == prefix[0] && starts(text.skip(1), prefix.skip(1)) {
                assert(text.subrange(0, n) =~= seq![text[0]] + text.skip(1).subrange(0, n - 1));
                assert(prefix =~= seq![prefix[0]] + prefix.skip(1));
            }
        }
    } else {
        assert(pattern =~= "*"@);
        anything_matches(text);
        assert(text.subrange(0, 0) =~= prefix);
    }
}

proof fn anything_matches(text: Seq<char>)
    ensures
        star_matches("*"@, text),
    decreases text.len(),
{
    reveal_strlit("*");
    reveal_with_fuel(star_matches, 2);
    if text.len() > 0 {
        anything_matches(text.skip(1));
    } else {
        assert("*"@.skip(1) =~= Seq::empty());
    }
}

/// A name that is hidden, or that has not the form of the pattern, is passed over.
pub proof fn which_names_are_taken(names: Seq<Seq<char>>, name: Seq<char>, pattern: Seq<char>)
    ensures
        names_matching(Seq::empty(), pattern) == Seq::<Seq<char>>::empty(),
        starts(name, "."@) || !star_matches(pattern, name) ==> names_matching(names.push(name), pattern)
            == names_matching(names, pattern),
        !starts(name, "."@) && star_matches(pattern, name) ==> names_matching(names.push(name), pattern) == with_text(
            names_matching(names, pattern),
            name,
        ),
{
    assert(names.push(name).drop_last() =~= names);
}

/// Nothing is lost and nothing repeated where repetitions are left out.
pub proof fn nothing_is_repeated(list: Seq<Seq<char>>)
    ensures
        forall|x: Seq<char>| #[trigger] list.contains(x) <==> distinct(list).contains(x),
        forall|i: int, j: int| 0 <= i < j < distinct(list).len() ==> distinct(list)[i] != distinct(list)[j],
    decreases list.len(),
{
    if list.len() > 0 {
        let less = list.drop_last();
        nothing_is_repeated(less);
        let r = distinct(list);
        let before = distinct(less);
        assert forall|x: Seq<char>| #[trigger] list.contains(x) <==> r.contains(x) by {
            if list.contains(x) {
                let i = choose|i: int| 0 <= i < list.len() && list[i] == x;
                if i < less.len() {
                    assert(less[i] == x);
                    assert(less.contains(x));
                    assert(before.contains(x));
                    let k = choose|k: int| 0 <= k < before.len() && before[k] == x;
                    assert(r[k] == x);
                } else if !before.contains(x) {
                    assert(r[r.len() - 1] == x);
                }
            }
            if r.contains(x) {
                let k = choose|k: int| 0 <= k < r.len() && r[k] == x;
                if k < before.len() {
                    assert(before[k] == x);
                    assert(less.contains(x));
                    let i = choose|i: int| 0 <= i < less.len() && less[i] == x;
                    assert(list[i] == x);
                } else {
                    assert(list[list.len() - 1] == x);
                }
            }
        }
        assert forall|i: int, j: int| 0 <= i < j < r.len() implies r[i] != r[j] by {
            if j == before.len() {
                assert(before[i] == r[i]);
                assert(before.contains(before[i]));
            }
        }
    } else {
        assert forall|x: Seq<char>| #[trigger] list.contains(x) <==> distinct(list).contains(x) by {}
    }
}

/// The first address that can be reached is taken, and none behind it is tried.
pub proof fn the_first_address_is_taken<H: Host>(m: Site<H>, candidates: Seq<Seq<char>>)
    ensures
        first_resolvable::<H>(m, Seq::empty()) == (m, None::<Seq<char>>),
        candidates.len() > 0 && resolvable::<H>(m, candidates[0]).1 ==> first_resolvable::<H>(m, candidates).1 == Some(
            candidates[0],
        ) && first_resolvable::<H>(m, candidates).0.calls.len() == resolvable::<H>(m, candidates[0]).0.calls.len() + 1,
        candidates.len() > 0 && !resolvable::<H>(m, candidates[0]).1 ==> first_resolvable::<H>(m, candidates)
            == first_resolvable::<H>(resolvable::<H>(m, candidates[0]).0, candidates.skip(1)),
        mirror_found::<H>(m, candidates).1 is Some ==> candidates.contains(mirror_found::<H>(m, candidates).1->0),
{
    let line = tool_logged::<H>(
        m,
        "search for mirror in candidates: '"@ + list_repr(candidates) + "'"@,
    );
    what_is_found_was_a_candidate::<H>(line, candidates);
}

proof fn what_is_found_was_a_candidate<H: Host>(m: Site<H>, candidates: Seq<Seq<char>>)
    ensures
        first_resolvable::<H>(m, candidates).1 is Some ==> candidates.contains(
            first_resolvable::<H>(m, candidates).1->0,
        ),
    decreases candidates.len(),
{
    if candidates.len() > 0 {
        let (m1, found) = resolvable::<H>(m, candidates[0]);
        if found {
            assert(candidates.contains(candidates[0]));
        } else {
            what_is_found_was_a_candidate::<H>(m1, candidates.skip(1));
            let r = first_resolvable::<H>(m, candidates).1;
            if r is Some {
                let i = choose|i: int| 0 <= i < candidates.skip(1).len() && candidates.skip(1)[i] == r->0;
                assert(candidates[i + 1] == r->0);
            }
        }
    }
}

/// Unless it is asked for, the name service is not searched.
pub proof fn the_name_service_is_not_searched<H: Host>(m: Site<H>, kind: Seq<char>, fqdn: Seq<char>, distro: Seq<char>)
    ensures
        dns_mirror::<H>(m, Val::Bool(false), kind, fqdn, distro) == (m, None::<Seq<char>>),
        dns_mirror::<H>(m, Val::Null, kind, fqdn, distro) == (m, None::<Seq<char>>),
{
}

/// Which answers do not count is found out once.
pub proof fn redirections_are_found_out_once<H: Host>(m: Site<H>, known: Seq<Seq<char>>)
    requires
        H::reply(m.world, Call::KnownRedirects).1->Known_0 == Some(known),
    ensures
        redirected::<H>(m).1 == known,
        redirected::<H>(m).0.calls == m.calls.push(Call::KnownRedirects),
{
}

/// The names that are tried cannot exist, and what they are given is kept.
pub proof fn names_that_cannot_exist<H: Host>(m: Site<H>)
    requires
        H::reply(m.world, Call::KnownRedirects).1->Known_0 is None,
    ensures
        ({
            let (m1, r) = redirected::<H>(m);
            let n = m.calls.len() as int;
            &&& m1.calls[n + 1] == Call::Resolve("does-not-exist.example.com."@)
            &&& m1.calls[n + 2] == Call::Resolve("example.invalid."@)
            &&& m1.calls[n + 3] == Call::Resolve("__cloud_init_expected_not_found__"@)
            &&& m1.calls.last() == Call::KeepRedirects(r)
        }),
{
    reveal_with_fuel(names_resolved, 4);
    let names = bad_names();
    assert(names.skip(1)[0] == names[1]);
    assert(names.skip(1).skip(1)[0] == names[2]);
    assert(names.skip(1).skip(1).skip(1).len() == 0);
}

/// The stem of a path is the name behind its last slash, without its last ending.
pub proof fn the_stem_of_a_path(directory: Seq<char>, name: Seq<char>, ending: Seq<char>)
    requires
        !ending.contains('.'),
        !ending.contains('/'),
        !name.contains('/'),
        name.len() > 0,
        name.last() != '.',
    ensures
        stem(directory + seq!['/'] + (name + seq!['.'] + ending)) == name,
{
    let file = name + seq!['.'] + ending;
    let path = directory + seq!['/'] + file;
    assert(!file.contains('/')) by {
        if file.contains('/') {
            let i = choose|i: int| 0 <= i < file.len() && file[i] == '/';
            if i < name.len() {
                assert(name[i] == '/');
            } else if i > name.len() {
                assert(ending[i - name.len() - 1] == '/');
            }
        }
    }
    reveal_strlit("/");
    reveal_strlit("..");
    reveal_strlit(".");
    last_piece(path, directory, file);
    last_found(name, '.', ending);
    assert(file.len() > 1);
    assert(file != ".."@) by {
        if file == ".."@ {
            assert(file[0] == '.');
            assert(name[0] == '.');
            assert(name.len() == 1);
        }
    }
    reveal_with_fuel(last_part, 2);
}

proof fn last_piece(path: Seq<char>, directory: Seq<char>, file: Seq<char>)
    requires
        path == directory + seq!['/'] + file,
        !file.contains('/'),
    ensures
        split(path, "/"@).len() > 0,
        split(path, "/"@).last() == file,
    decreases directory.len(),
{
    reveal_strlit("/");
    let slash = "/"@;
    assert(slash =~= seq!['/']);
    find_from_is_first(path, slash, 0);
    let n = directory.len() as int;
    assert(path.subrange(n, n + 1) =~= slash);
    assert(stands_at(path, slash, n));
    let i = find(path, slash)->0;
    assert(i <= n);
    let rest = path.skip(i + 1);
    assert(split(path, slash) =~= seq![path.take(i)] + split(rest, slash));
    if i == n {
        assert(rest =~= file);
        find_from_is_first(file, slash, 0);
        if find(file, slash) is Some {
            let k = find(file, slash)->0;
            assert(file.subrange(k, k + 1)[0] == '/');
            assert(file[k] == '/');
        }
        assert(split(rest, slash) =~= seq![file]);
    } else {
        assert(rest =~= directory.skip(i + 1) + seq!['/'] + file);
        last_piece(rest, directory.skip(i + 1), file);
    }
    assert(split(path, slash).last() == split(rest, slash).last());
}

/// A key needs the program that reads keys; sources that are preserved need no key.
pub proof fn keys_need_their_program(cfg: Seq<(Seq<char>, Val)>, item: Seq<(Seq<char>, Val)>, matcher: Option<Seq<char>>)
    requires
        get(cfg, "primary"@) == Some(Val::Array(seq![Val::Object(item)])),
        get(item, "key"@) is Some || get(item, "keyid"@) is Some,
        get(cfg, "sources"@) is None,
        get(cfg, "security"@) is None,
    ensures
        get(cfg, "preserve_sources_list"@) is None ==> commands_needed(cfg, matcher) == seq!["gpg"@],
        get(cfg, "preserve_sources_list"@) == Some(Val::Bool(true)) ==> commands_needed(cfg, matcher) == Seq::<
            Seq<char>,
        >::empty(),
{
    let items = seq![Val::Object(item)];
    assert(has_key(items[0]));
    assert(any_has_key(items));
}

/// A command that is there needs no package; one that is not needs its own.
pub proof fn a_missing_command_needs_its_package<H: Host>(m: Site<H>, command: Seq<char>, rest: Seq<Seq<char>>, out: Seq<Seq<char>>)
    ensures
        ({
            let ask = Call::Which(command);
            let (w, a) = H::reply(m.world, ask);
            let m1 = asked(m, ask, w);
            let r = packages_missing::<H>(m, seq![command] + rest, out);
            &&& a->Flag_0 ==> r == packages_missing::<H>(m1, rest, out)
            &&& !a->Flag_0 ==> r == packages_missing::<H>(m1, rest, with_text(out, package_of(command)))
        }),
{
    let all = seq![command] + rest;
    assert(all[0] == command);
    assert(all.skip(1) =~= rest);
}

/// A source that is for the repository command goes to it; any other is a line of its
/// file.
pub proof fn where_a_source_goes(path: Seq<char>, source: Seq<char>, append: bool)
    ensures
        step_for(path, source, append, true) == (StepSpec::AddAptRepository { source }),
        step_for(path, source, append, false) == (StepSpec::WriteSource { path, content: source + "\n"@, append }),
{
}

/// The packages of a listing are those of its lines.
pub proof fn a_line_is_a_package(lines: Seq<Seq<char>>, line: Seq<char>)
    ensures
        installed_in(Seq::empty()) == Seq::<Seq<char>>::empty(),
        installed_on(line) is Some ==> installed_in(lines.push(line)) == with_text(
            installed_in(lines),
            installed_on(line)->0,
        ),
        installed_on(line) is None ==> installed_in(lines.push(line)) == installed_in(lines),
{
    assert(lines.push(line).drop_last() =~= lines);
}

/// Sources are added in order, and at the end apt reads them.
pub proof fn sources_are_added_in_order<H: Host>(
    m: Site<H>,
    params: Seq<(Seq<char>, Val)>,
    matcher: Option<Seq<char>>,
    steps: Seq<StepSpec>,
)
    ensures
        sources_planned::<H>(m, Seq::empty(), params, matcher, steps).2 == Ok::<Seq<StepSpec>, Seq<char>>(
            steps.push(StepSpec::UpdatePackageSources),
        ),
{
}

/// Steps are carried out in order, and the first failure ends it.
pub proof fn one_step_after_the_other<H: Host>(m: Site<H>, steps: Seq<StepSpec>, step: StepSpec, root: Seq<char>)
    ensures
        steps_run::<H>(m, steps, root).1 is Ok ==> steps_run::<H>(m, steps.push(step), root).0 == step_run::<H>(
            steps_run::<H>(m, steps, root).0,
            step,
            root,
        ).0 && (steps_run::<H>(m, steps.push(step), root).1 is Ok <==> step_run::<H>(
            steps_run::<H>(m, steps, root).0,
            step,
            root,
        ).1 is Ok),
        steps_run::<H>(m, steps, root).1 is Err ==> steps_run::<H>(m, steps.push(step), root) == steps_run::<H>(
            m,
            steps,
            root,
        ),
    decreases steps.len(),
{
    reveal_with_fuel(steps_run, 2);
    let more = steps.push(step);
    if steps.len() > 0 {
        assert(more[0] == steps[0]);
        assert(more.skip(1) =~= steps.skip(1).push(step));
        let (m1, done) = step_run::<H>(m, steps[0], root);
        if done is Ok {
            one_step_after_the_other::<H>(m1, steps.skip(1), step, root);
        }
    } else {
        assert(more.skip(1) =~= Seq::empty());
    }
}

/// A stanza that names suites stays; a comment and an empty line stand for themselves.
pub proof fn what_stays_of_stanzas(entry: Seq<char>, line: Seq<char>, disabled: Seq<Seq<char>>, out: Seq<Seq<char>>)
    ensures
        has_suites(entry) ==> stanza(entry) == entry,
        starts(line, "#"@) ==> stanzas(seq![line], disabled, out, Seq::empty()) == out.push(line),
        !starts(line, "#"@) && all_within(Class::Space, line) ==> stanzas(seq![line], disabled, out, Seq::empty())
            == out.push(line),
        has_suites(entry) && entry.len() > 0 && !starts(line, "#"@) && all_within(Class::Space, line) ==> stanzas(
            seq![line],
            disabled,
            out,
            entry,
        ) == out.push(entry).push(line),
        stanzas(Seq::empty(), disabled, out, Seq::empty()) == out,
{
    reveal_with_fuel(stanzas, 2);
    assert(seq![line].skip(1) =~= Seq::empty());
}

/// A list of a mirror that moved keeps the end of its name under the new beginning.
pub proof fn a_list_keeps_the_end_of_its_name<H: Host>(
    m: Site<H>,
    from: Seq<char>,
    to: Seq<char>,
    tail: Seq<char>,
    rest: Seq<Seq<char>>,
)
    ensures
        ({
            let m1 = files_renamed::<H>(
                m,
                "/var/lib/apt/lists/"@ + from,
                "/var/lib/apt/lists/"@ + to,
                seq![from + tail] + rest,
                Seq::empty(),
            );
            let n = m.calls.len() as int;
            rest.len() == 0 ==> m1.calls.len() >= n + 2 && m1.calls[n + 1] == (Call::Rename {
                from: "/var/lib/apt/lists/"@ + from + tail,
                to: "/var/lib/apt/lists/"@ + to + tail,
            })
        }),
{
    reveal_strlit("/var/lib/apt/lists/");
    reveal_strlit("/var/lib/apt/lists");
    reveal_strlit("/");
    reveal_with_fuel(files_renamed, 2);
    let names = seq![from + tail] + rest;
    assert(names[0] == from + tail);
    let path = APT_LISTS@ + "/"@ + names[0];
    let start = "/var/lib/apt/lists/"@ + from;
    assert(path =~= start + tail);
    the_rest_stands_behind(path, start, tail);
    assert(names.skip(1) =~= rest);
}

/// An empty configuration is for machines with apt that are not snappy.
pub proof fn when_an_empty_configuration_is_refused<H: Host>(m: Site<H>)
    ensures
        ({
            let (m1, r) = refused_when_empty::<H>(m);
            let n = m.calls.len() as int;
            let (w1, snappy) = H::reply(m.world, Call::Snappy);
            let (w2, first) = H::reply(w1, Call::Which("apt-get"@));
            let (w3, second) = H::reply(w2, Call::Which("apt"@));
            &&& m1.calls[n] == Call::Snappy
            &&& snappy->Flag_0 ==> r is Some && m1.calls.len() == n + 1
            &&& !snappy->Flag_0 ==> m1.calls[n + 1] == Call::Which("apt-get"@)
            &&& !snappy->Flag_0 && first->Flag_0 ==> r is None && m1.calls.len() == n + 2
            &&& !snappy->Flag_0 && !first->Flag_0 ==> m1.calls[n + 2] == Call::Which("apt"@) && (r is None
                <==> second->Flag_0)
        }),
{
}

/// Sources that are to be preserved are not touched; without a word on it they are
/// written.
pub proof fn when_sources_are_written<H: Host>(
    m: Site<H>,
    cfg: Seq<(Seq<char>, Val)>,
    mirrors: Seq<(Seq<char>, Val)>,
    release: Seq<char>,
    arch: Seq<char>,
    distro: Seq<char>,
    deb822: bool,
    root: Seq<char>,
)
    ensures
        get(cfg, "preserve_sources_list"@) == Some(Val::Bool(true)) ==> main_sources::<H>(
            m,
            cfg,
            mirrors,
            release,
            arch,
            distro,
            deb822,
            root,
        ).0 == m,
        get(cfg, "preserve_sources_list"@) is None || get(cfg, "preserve_sources_list"@) == Some(Val::Bool(false))
            ==> main_sources::<H>(m, cfg, mirrors, release, arch, distro, deb822, root)
            == sources_regenerated::<H>(m, cfg, mirrors, release, arch, distro, deb822, root),
{
}

/// Selections are read line by line: a line is for a package, and a package that is
/// installed is configured anew.
pub proof fn selections_line_by_line(
    m: Seq<(Seq<char>, Val)>,
    list: Seq<Seq<char>>,
    key: Seq<char>,
    lines: Seq<Seq<char>>,
    line: Seq<char>,
    among: Seq<Seq<char>>,
    out: Seq<Seq<char>>,
)
    ensures
        get(m, key) is Some ==> shown_under(m, list.push(key))
            == shown_under(m, list).push(show(get(m, key)->0)),
        get(m, key) is None ==> shown_under(m, list.push(key))
            == shown_under(m, list),
        shown_under(m, Seq::empty()).len() == 0,
        ({
            let name = package_on(line);
            let before = packages_on(lines, among, out);
            let after = packages_on(lines.push(line), among, out);
            &&& name is Some && among.contains(name->0) ==> after == with_text(before, name->0)
            &&& name is None || !among.contains(name->0) ==> after == before
        }),
        ({
            let name = package_on(line);
            let before = names_on(lines, out);
            let after = names_on(lines.push(line), out);
            &&& name is Some ==> after == before.push(name->0)
            &&& name is None ==> after == before
        }),
        packages_on(Seq::empty(), among, out) == out,
        names_on(Seq::empty(), out) == out,
{
    assert(list.push(key).drop_last() =~= list);
    assert(lines.push(line).drop_last() =~= lines);
}

/// Files are removed from their directory, one by one.
pub proof fn files_are_removed_one_by_one<H: Host>(m: Site<H>, dir: Seq<char>, name: Seq<char>, rest: Seq<Seq<char>>)
    ensures
        ({
            let gone = Call::RemoveFile(dir + "/"@ + name);
            files_removed::<H>(m, dir, seq![name] + rest)
                == files_removed::<H>(
                asked(m, gone, H::reply(m.world, gone).0),
                dir,
                rest,
            )
        }),
        files_removed::<H>(m, dir, Seq::empty()) == m,
{
    let all = seq![name] + rest;
    assert(all[0] == name);
    assert(all.skip(1) =~= rest);
}

/// What the package manager wrote of cloud-init is in the directory of its configuration.
pub proof fn where_cloud_init_is_cleaned<H: Host>(m: Site<H>, root: Seq<char>)
    ensures
        ({
            let m1 = cloud_init_cleaned::<H>(m, root);
            let look = Call::ListDir("/etc/cloud/cloud.cfg.d"@);
            let found = H::reply(m.world, look).1->Names_0;
            let names = names_matching(found, "*dpkg*"@);
            &&& m1.calls.len() >= m.calls.len() + 2
            &&& m1.calls[m.calls.len() as int] == look
            &&& names.len() > 0 ==> m1.calls[m.calls.len() as int + 2] == Call::RemoveFile(
                "/etc/cloud/cloud.cfg.d"@ + "/"@ + names[0],
            )
        }),
{
    let look = Call::ListDir("/etc/cloud/cloud.cfg.d"@);
    let found = H::reply(m.world, look).1->Names_0;
    let names = names_matching(found, "*dpkg*"@);
    let m1 = asked(m, look, H::reply(m.world, look).0);
    let m2 = logged::<H>(
        m1,
        "cleaning cloud-init config from: "@ + list_repr(
            paths_in(root, "/etc/cloud/cloud.cfg.d"@, names),
        ),
    );
    removing_adds::<H>(m2, "/etc/cloud/cloud.cfg.d"@, names);
}

proof fn removing_adds<H: Host>(m: Site<H>, dir: Seq<char>, names: Seq<Seq<char>>)
    ensures
        ({
            let calls = files_removed::<H>(m, dir, names).calls;
            &&& calls.len() == m.calls.len() + names.len()
            &&& forall|i: int| 0 <= i < m.calls.len() ==> #[trigger] calls[i] == m.calls[i]
            &&& names.len() > 0 ==> calls[m.calls.len() as int] == Call::RemoveFile(dir + "/"@ + names[0])
        }),
    decreases names.len(),
{
    if names.len() > 0 {
        let gone = Call::RemoveFile(dir + "/"@ + names[0]);
        let m1 = asked(m, gone, H::reply(m.world, gone).0);
        removing_adds::<H>(m1, dir, names.skip(1));
        let calls = files_removed::<H>(m, dir, names).calls;
        assert(calls[m.calls.len() as int] == m1.calls[m.calls.len() as int]);
        assert forall|i: int| 0 <= i < m.calls.len() implies #[trigger] calls[i] == m.calls[i] by {
            assert(calls[i] == m1.calls[i]);
        }
    }
}

/// The name of a key's file is the one that is given, and else that of its entry.
pub proof fn the_name_of_a_key(ent: Seq<(Seq<char>, Val)>, name: Seq<char>)
    ensures
        key_name(ent, Some(name)) == Ok::<Seq<char>, Seq<char>>(name),
        get(ent, "filename"@) == Some(Val::Text(name)) ==> key_name(ent, None) == Ok::<
            Seq<char>,
            Seq<char>,
        >(name),
        get(ent, "filename"@) is None ==> key_name(ent, None) is Err,
{
}

/// The last line that sets a name counts.
pub proof fn the_last_setting_counts(lines: Seq<Seq<char>>, line: Seq<char>, name: Seq<char>, default: Seq<char>)
    ensures
        last_setting(Seq::empty(), name, default) == default,
        ({
            let set = setting_on(line);
            let after = last_setting(lines.push(line), name, default);
            &&& set is Some && (set->0).0 == name ==> after == (set->0).1
            &&& set is None || (set->0).0 != name ==> after == last_setting(
                lines,
                name,
                default,
            )
        }),
{
    assert(lines.push(line).drop_last() =~= lines);
}

/// Lines are dealt with in order, and a failure of one ends it.
pub proof fn one_line_after_the_other(line: Seq<char>, rest: Seq<Seq<char>>, suite: Seq<char>, out: Seq<char>)
    ensures
        ({
            let done = source_line(line, suite);
            let all = source_lines(seq![line] + rest, suite, out);
            &&& done is Ok ==> all == source_lines(rest, suite, out + done->Ok_0)
            &&& done is Err ==> all is Err
        }),
        source_lines(Seq::empty(), suite, out) == Ok::<Seq<char>, Seq<char>>(out),
{
    let all = seq![line] + rest;
    assert(all[0] == line);
    assert(all.skip(1) =~= rest);
}

/// The lines of suites are left out, and all others stay; a line that is not blank gets
/// the text before it.
pub proof fn lines_that_are_no_suites(lines: Seq<Seq<char>>, line: Seq<char>, prefix: Seq<char>)
    ensures
        starts(line, "Suites:"@) ==> other_lines(lines.push(line))
            == other_lines(lines),
        !starts(line, "Suites:"@) ==> other_lines(lines.push(line))
            == other_lines(lines).push(line),
        all_within(Class::Space, line) ==> indented(lines.push(line), prefix)
            == indented(lines, prefix) + line,
        !all_within(Class::Space, line) ==> indented(lines.push(line), prefix)
            == indented(lines, prefix) + prefix + line,
        other_lines(Seq::empty()).len() == 0,
        indented(Seq::empty(), prefix).len() == 0,
{
    assert(lines.push(line).drop_last() =~= lines);
    let before = indented(lines, prefix);
    assert(before + (prefix + line) =~= before + prefix + line);
}

/// Which sources are for the repository command is told by the configured expression, and
/// one that is none is an error.
pub proof fn the_configured_expression_tells(cfg: Seq<(Seq<char>, Val)>, pattern: Seq<char>, apt: Seq<(Seq<char>, Val)>)
    ensures
        get(cfg, "add_apt_repo_match"@) == Some(Val::Text(pattern)) && pattern.len() > 0 && pattern_error(
            pattern,
        ) is None ==> repository_matcher(cfg) == Ok::<Option<Seq<char>>, Seq<char>>(
            Some(pattern),
        ),
        get(cfg, "add_apt_repo_match"@) == Some(Val::Text(pattern)) && pattern.len() > 0 && pattern_error(
            pattern,
        ) is Some ==> repository_matcher(cfg) is Err,
        get(cfg, "add_apt_repo_match"@) == Some(Val::Bool(false)) && get(cfg, "sources"@) is None
            ==> repository_matcher(cfg) == Ok::<Option<Seq<char>>, Seq<char>>(None),
        get(cfg, "apt"@) == Some(Val::Object(apt)) ==> apt_block(cfg) == Ok::<
            Seq<(Seq<char>, Val)>,
            Seq<char>,
        >(apt),
        get(cfg, "apt"@) is None ==> apt_block(cfg) == Ok::<Seq<(Seq<char>, Val)>, Seq<char>>(
            Seq::empty(),
        ),
        get(cfg, "apt"@) == Some(Val::Null) ==> apt_block(cfg) is Err,
{
}

} // verus!
