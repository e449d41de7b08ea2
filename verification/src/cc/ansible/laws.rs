//! What is promised of the commands that set up ansible and run it.

use vstd::prelude::*;

use crate::cc::CmdFailed;
use crate::cc::ansible::{
    actions_run, all_pulled, config_fault, controller_fault, controller_run, entry_pulled, first_pull, galaxy_run,
    install, installed, installed_and_run, is_given, numeral_in, options_for, path_with, pip_installed, pip_words,
    playbooks_run, pull_fault, pull_faults, pulled, pulled_each, pulls_fault, repositories_cloned, run_as, site_added,
    su_words, tasks_run, value_pulled, version_in, with_config, with_word, Method, PullSpec, Version,
};
use crate::cc::ansible::host::{warned, Call, Control, Host};
use crate::machine::{asked, lookup, table_set};
use crate::shlex::shell_quoted;
use crate::show::{show, shows, truthy};
use crate::space::{first_of, trim_start, within, Class};
use crate::text::{holds, join, replaced};
use crate::value::{get, shift_removed, Val};

verus! {

/// The call that runs words: as the user where one is set, and else with the variables.
pub open spec fn command(p: PullSpec, argv: Seq<Seq<char>>, cwd: Option<Seq<char>>) -> Call {
    match p.run_user {
        Some(user) => Call::DoAs { argv, user, cwd },
        None => Call::Subp { argv, env: p.env, cwd },
    }
}

/// The words that fetch a repository.
pub open spec fn clone_words(entry: Val) -> Seq<Seq<char>> {
    seq![
        "git"@,
        "clone"@,
        show(get(entry->Object_0, "source"@)->0),
        show(get(entry->Object_0, "path"@)->0),
    ]
}

proof fn each_repository_is_cloned<H: Host>(m: Control<H>, p: PullSpec, items: Seq<Val>)
    ensures
        ({
            let (after, done) = repositories_cloned::<H>(m, p, items);
            let n = m.calls.len() as int;
            &&& n <= after.calls.len() <= n + items.len()
            &&& after.calls.take(n) == m.calls
            &&& done is Ok ==> after.calls.len() == n + items.len()
            &&& forall|i: int| #![trigger after.calls[i]]
                n <= i < after.calls.len() ==> {
                    &&& items[i - n] is Object
                    &&& get(items[i - n]->Object_0, "source"@) is Some
                    &&& get(items[i - n]->Object_0, "path"@) is Some
                    &&& after.calls[i] == command(p, clone_words(items[i - n]), None)
                }
        }),
    decreases items.len(),
{
    let (after, done) = repositories_cloned::<H>(m, p, items);
    let n = m.calls.len() as int;
    if items.len() == 0 {
        assert(after.calls.take(n) =~= m.calls);
    } else if items[0] is Object && get(items[0]->Object_0, "source"@) is Some && get(items[0]->Object_0, "path"@) is Some {
        let (m1, out) = run_as::<H>(m, p, clone_words(items[0]), None);
        assert(m1.calls =~= m.calls.push(command(p, clone_words(items[0]), None)));
        if out is Ok {
            each_repository_is_cloned::<H>(m1, p, items.skip(1));
            assert(after.calls.take(n) =~= after.calls.take(n + 1).take(n));
            assert forall|i: int| #![trigger after.calls[i]] n <= i < after.calls.len() implies {
                &&& items[i - n] is Object
                &&& get(items[i - n]->Object_0, "source"@) is Some
                &&& get(items[i - n]->Object_0, "path"@) is Some
                &&& after.calls[i] == command(p, clone_words(items[i - n]), None)
            } by {
                if i == n {
                    assert(after.calls[n] == after.calls.take(n + 1)[n]);
                } else {
                    assert(items.skip(1)[i - n - 1] == items[i - n]);
                }
            }
        }
        assert(after.calls.take(n) =~= m.calls);
    } else {
        assert(after.calls.take(n) =~= m.calls);
    }
}

/// The controller fetches its repositories first, one after the other: each with the
/// words `git`, `clone`, its source and its path, in this order, until one fails.
pub proof fn repositories_are_cloned_from_source_to_path<H: Host>(
    m: Control<H>,
    p: PullSpec,
    cfg: Seq<(Seq<char>, Val)>,
    items: Seq<Val>,
) -> (made: nat)
    requires
        get(cfg, "repositories"@) == Some(Val::Array(items)),
    ensures
        ({
            let (after, done) = controller_run::<H>(m, p, Val::Object(cfg));
            let n = m.calls.len() as int;
            &&& made <= items.len()
            &&& n + made <= after.calls.len()
            &&& after.calls.take(n) == m.calls
            &&& done is Ok ==> made == items.len()
            &&& made < items.len() ==> after.calls.len() == n + made
            &&& forall|i: int| #![trigger items[i]]
                0 <= i < made ==> {
                    &&& items[i] matches Val::Object(entry) && get(entry, "source"@) is Some && get(entry, "path"@) is Some
                    &&& p.run_user is None ==> after.calls[n + i] == (Call::Subp {
                        argv: seq![
                            "git"@,
                            "clone"@,
                            show(get(items[i]->Object_0, "source"@)->0),
                            show(get(items[i]->Object_0, "path"@)->0),
                        ],
                        env: p.env,
                        cwd: None,
                    })
                    &&& p.run_user is Some ==> after.calls[n + i] == (Call::DoAs {
                        argv: seq![
                            "git"@,
                            "clone"@,
                            show(get(items[i]->Object_0, "source"@)->0),
                            show(get(items[i]->Object_0, "path"@)->0),
                        ],
                        user: p.run_user->0,
                        cwd: None,
                    })
                }
        }),
{
    let (m1, cloned) = repositories_cloned::<H>(m, p, items);
    let (after, done) = controller_run::<H>(m, p, Val::Object(cfg));
    let n = m.calls.len() as int;
    each_repository_is_cloned::<H>(m, p, items);
    let made = (m1.calls.len() - n) as nat;
    let runs = get(cfg, "run_ansible"@);
    if cloned is Ok && runs is Some && runs->0 is Array {
        each_playbook_is_run::<H>(m1, p, runs->0->Array_0);
    } else {
        assert(after.calls.take(m1.calls.len() as int) =~= m1.calls);
    }
    assert(after.calls.take(n) =~= after.calls.take(m1.calls.len() as int).take(n));
    assert forall|i: int| #![trigger items[i]] 0 <= i < made implies after.calls[n + i] == command(
        p,
        clone_words(items[i]),
        None,
    ) && items[i] is Object && get(items[i]->Object_0, "source"@) is Some && get(items[i]->Object_0, "path"@) is Some by {
        assert(after.calls[n + i] == after.calls.take(m1.calls.len() as int)[n + i]);
        assert(m1.calls[n + i] == command(p, clone_words(items[i]), None));
    }
    made
}

/// The settings of a playbook that is run.
pub open spec fn playbook_settings(entry: Seq<(Seq<char>, Val)>) -> Seq<(Seq<char>, Val)> {
    shift_removed(shift_removed(entry, "playbook_dir"@), "playbook_name"@)
}

/// The call that runs a playbook.
pub open spec fn playbook_call(p: PullSpec, entry: Val) -> Call {
    command(
        p,
        seq![
            "ansible-playbook"@,
            show(get(shift_removed(entry->Object_0, "playbook_dir"@), "playbook_name"@)->0),
        ] + options_for(playbook_settings(entry->Object_0), false),
        Some(show(get(entry->Object_0, "playbook_dir"@)->0)),
    )
}

/// Playbooks are run one after the other until one fails: each with `ansible-playbook`,
/// its name and its options, in its own directory.
pub proof fn each_playbook_is_run<H: Host>(m: Control<H>, p: PullSpec, items: Seq<Val>)
    ensures
        ({
            let (after, done) = playbooks_run::<H>(m, p, items);
            let n = m.calls.len() as int;
            &&& n <= after.calls.len() <= n + items.len()
            &&& after.calls.take(n) == m.calls
            &&& done is Ok ==> after.calls.len() == n + items.len()
            &&& forall|i: int| #![trigger after.calls[i]]
                n <= i < after.calls.len() ==> items[i - n] is Object && after.calls[i] == playbook_call(p, items[i - n])
        }),
    decreases items.len(),
{
    let (after, done) = playbooks_run::<H>(m, p, items);
    let n = m.calls.len() as int;
    if items.len() == 0 {
        assert(after.calls.take(n) =~= m.calls);
    } else if items[0] is Object && get(items[0]->Object_0, "playbook_dir"@) is Some && get(
        shift_removed(items[0]->Object_0, "playbook_dir"@),
        "playbook_name"@,
    ) is Some {
        let name = get(shift_removed(items[0]->Object_0, "playbook_dir"@), "playbook_name"@)->0;
        let dir = get(items[0]->Object_0, "playbook_dir"@)->0;
        let words = seq!["ansible-playbook"@, show(name)] + options_for(playbook_settings(items[0]->Object_0), false);
        let (m1, out) = run_as::<H>(m, p, words, Some(show(dir)));
        assert(m1.calls =~= m.calls.push(playbook_call(p, items[0])));
        if out is Ok {
            each_playbook_is_run::<H>(m1, p, items.skip(1));
            assert(after.calls.take(n) =~= after.calls.take(n + 1).take(n));
            assert forall|i: int| #![trigger after.calls[i]] n <= i < after.calls.len() implies items[i - n] is Object
                && after.calls[i] == playbook_call(p, items[i - n]) by {
                if i == n {
                    assert(after.calls[n] == after.calls.take(n + 1)[n]);
                } else {
                    assert(items.skip(1)[i - n - 1] == items[i - n]);
                }
            }
        }
        assert(after.calls.take(n) =~= m.calls);
    } else {
        assert(after.calls.take(n) =~= m.calls);
    }
}

/// One more setting is one more option behind the others: two dashes, the key with
/// dashes for its underscores, and the value behind an equals sign. A setting that is
/// switched off adds none, and where plain options are taken, one that is switched on
/// has no value.
pub proof fn a_setting_is_an_option(cfg: Seq<(Seq<char>, Val)>, key: Seq<char>, v: Val, bare: bool)
    ensures
        options_for(Seq::empty(), bare) == Seq::<Seq<char>>::empty(),
        options_for(cfg.push((key, v)), bare) == (if v == Val::Bool(false) {
            options_for(cfg, bare)
        } else if bare && v == Val::Bool(true) {
            options_for(cfg, bare).push("--"@ + replaced(key, "_"@, "-"@))
        } else {
            options_for(cfg, bare).push("--"@ + replaced(key, "_"@, "-"@) + "="@ + show(v))
        }),
{
    assert(cfg.push((key, v)).drop_last() =~= cfg);
}

/// One pull is one command, whose words are `ansible-pull` and the arguments; what it
/// prints is printed.
pub proof fn a_pull_is_one_command<H: Host>(m: Control<H>, p: PullSpec, args: Seq<Seq<char>>)
    ensures
        ({
            let (after, done) = pulled::<H>(m, p, args);
            let call = command(p, seq!["ansible-pull"@] + args, None);
            let out = H::reply(m.world, call).1->Output_0;
            &&& done is Ok <==> out is Ok
            &&& after.calls == if out is Ok && out->Ok_0.len() > 0 {
                m.calls.push(call).push(Call::Print(out->Ok_0))
            } else {
                m.calls.push(call)
            }
        }),
{
}

/// From version 2.12 on, the playbooks of an entry are pulled with one command, which
/// has the options and behind them all the playbooks. An older version, and one that
/// cannot be told, pulls them one at a time.
pub proof fn playbooks_are_pulled_at_once_from_2_12<H: Host>(
    m: Control<H>,
    p: PullSpec,
    cfg: Seq<(Seq<char>, Val)>,
    names: Seq<Val>,
)
    requires
        !is_given(cfg, "playbook_name"@),
        get(shift_removed(cfg, "playbook_name"@), "playbook_names"@) == Some(Val::Array(names)),
        !is_given(shift_removed(shift_removed(cfg, "playbook_name"@), "playbook_names"@), "diff"@),
    ensures
        ({
            let call = command(p, seq!["ansible-pull"@, "--version"@], None);
            let reply = H::reply(m.world, call);
            let m1 = asked(m, call, reply.0);
            let options = options_for(shift_removed(shift_removed(cfg, "playbook_name"@), "playbook_names"@), true);
            let books = Seq::new(names.len(), |i: int| show(names[i]));
            reply.1->Output_0 matches Ok(out) ==> match version_in(out) {
                Err(e) => entry_pulled::<H>(m, p, cfg) == (m1, Err::<(), Seq<char>>(e)),
                Ok(Some(v)) => v.patch >= 0 && v.rev >= -1 ==> entry_pulled::<H>(m, p, cfg) == if v.major > 2 || (v.major == 2 && v.minor >= 12) {
                    pulled::<H>(m1, p, options + books)
                } else {
                    pulled_each::<H>(m1, p, options, books)
                },
                Ok(None) => entry_pulled::<H>(m, p, cfg).1 == pulled_each::<H>(
                    warned::<H>(m1, "Cannot parse ansible version"@),
                    p,
                    options,
                    books,
                ).1,
            }
        }),
{
    assert(shows(names) =~= Seq::new(names.len(), |i: int| show(names[i])));
}

/// An entry with one playbook is pulled with it behind the options, whatever the
/// version is.
pub proof fn one_playbook_is_behind_the_options<H: Host>(m: Control<H>, p: PullSpec, options: Seq<Seq<char>>, book: Seq<char>)
    ensures
        pulled_each::<H>(m, p, options, seq![book]) == pulled::<H>(m, p, options.push(book)),
{
    reveal_with_fuel(pulled_each, 2);
    assert(seq![book].skip(1) =~= Seq::empty());
}

/// Playbooks are pulled one at a time in their order, until one fails.
pub proof fn playbooks_are_pulled_in_order<H: Host>(
    m: Control<H>,
    p: PullSpec,
    options: Seq<Seq<char>>,
    first: Seq<char>,
    rest: Seq<Seq<char>>,
)
    ensures
        pulled_each::<H>(m, p, options, seq![first] + rest) == ({
            let (m1, done) = pulled::<H>(m, p, options.push(first));
            if done is Ok {
                pulled_each::<H>(m1, p, options, rest)
            } else {
                (m1, done)
            }
        }),
{
    assert((seq![first] + rest).skip(1) =~= rest);
}

/// Before version 2.7 an entry that asks for a diff is refused, and nothing is pulled.
pub proof fn a_diff_needs_2_7<H: Host>(m: Control<H>, p: PullSpec, cfg: Seq<(Seq<char>, Val)>, out: Seq<char>, v: Version)
    requires
        is_given(cfg, "playbook_name"@),
        is_given(shift_removed(shift_removed(cfg, "playbook_name"@), "playbook_names"@), "diff"@),
        H::reply(m.world, command(p, seq!["ansible-pull"@, "--version"@], None)).1->Output_0 == Ok::<
            Seq<char>,
            CmdFailed,
        >(out),
        version_in(out) == Ok::<Option<Version>, Seq<char>>(Some(v)),
    ensures
        v.major < 2 || (v.major == 2 && v.minor < 7) ==> entry_pulled::<H>(m, p, cfg).1 is Err && entry_pulled::<H>(
            m,
            p,
            cfg,
        ).0.calls == m.calls.push(command(p, seq!["ansible-pull"@, "--version"@], None)),
{
}

/// Ansible is there where the distribution has its program, or where the package
/// manager of the interpreter lists it: for the user where one is set.
pub proof fn ansible_is_looked_for<H: Host>(m: Control<H>, p: PullSpec)
    ensures
        p.method == Method::Distro ==> installed::<H>(m, p).0.calls == m.calls.push(Call::Which("ansible"@))
            && installed::<H>(m, p).1 == Ok::<bool, Seq<char>>(
            H::reply(m.world, Call::Which("ansible"@)).1->Flag_0,
        ),
        p.method == Method::Pip ==> {
            let words = seq![p.python, "-m"@, "pip"@, "list"@];
            let call = command(
                p,
                if p.run_user is Some {
                    words.push("--user"@)
                } else {
                    words
                },
                None,
            );
            &&& installed::<H>(m, p).0.calls == m.calls.push(call)
            &&& H::reply(m.world, call).1->Output_0 matches Ok(out) ==> installed::<H>(m, p).1 == Ok::<bool, Seq<char>>(
                holds(out, "ansible"@),
            )
        },
{
}

/// Where ansible is there already, nothing is installed.
pub proof fn nothing_is_installed_twice<H: Host>(m: Control<H>, p: PullSpec, package: Seq<char>)
    requires
        p.method == Method::Distro,
    ensures
        H::reply(m.world, Call::Which("ansible"@)).1->Flag_0 ==> install::<H>(m, p, package).1 is Ok && install::<H>(
            m,
            p,
            package,
        ).0.calls == m.calls.push(Call::Which("ansible"@)),
        !H::reply(m.world, Call::Which("ansible"@)).1->Flag_0 ==> install::<H>(m, p, package).0.calls == m.calls.push(
            Call::Which("ansible"@),
        ).push(Call::Install(Val::Array(seq![Val::Text(package)]))),
{
}

/// The interpreter's package manager is itself installed as `python3-pip` where it is not
/// there.
pub proof fn the_package_manager_is_installed_first<H: Host>(m: Control<H>, p: PullSpec, package: Seq<char>)
    requires
        p.method == Method::Pip,
    ensures
        install::<H>(m, p, package).0.calls.len() > m.calls.len(),
        install::<H>(m, p, package).0.calls.take(m.calls.len() as int + 1) == m.calls.push(Call::HasPip),
        !H::reply(m.world, Call::HasPip).1->Flag_0 ==> install::<H>(m, p, package).0.calls.len() >= m.calls.len() + 2
            && install::<H>(m, p, package).0.calls[m.calls.len() as int + 1] == Call::Install(
            Val::Array(seq![Val::Text("python3-pip"@)]),
        ),
{
    assert(install::<H>(m, p, package).0.calls.take(m.calls.len() as int + 1) =~= m.calls.push(Call::HasPip));
}

/// The words by which the interpreter's package manager installs a package: the manager
/// itself is brought up to date first, with the same words before `--upgrade`.
pub proof fn the_words_that_install_with_pip<H: Host>(m: Control<H>, p: PullSpec, package: Seq<char>)
    ensures
        ({
            let managed = H::reply(m.world, Call::Managed).1->Flag_0;
            let base = seq![p.python, "-m"@, "pip"@, "install"@] + (if managed {
                seq!["--break-system-packages"@]
            } else {
                Seq::empty()
            }) + (if p.run_user is Some {
                seq!["--user"@]
            } else {
                Seq::empty()
            });
            let calls = pip_installed::<H>(m, p, package).0.calls;
            let n = m.calls.len() as int;
            &&& calls[n] == Call::Managed
            &&& calls[n + 2] == command(p, base + seq!["--upgrade"@, "pip"@], None)
            &&& calls[n + 5] == command(p, base + seq![package], None)
            &&& forall|i: int| n < i < calls.len() && i != n + 2 && i != n + 5 ==> #[trigger] calls[i] is Report
        }),
{
    let managed = H::reply(m.world, Call::Managed).1->Flag_0;
    let base = seq![p.python, "-m"@, "pip"@, "install"@] + (if managed {
        seq!["--break-system-packages"@]
    } else {
        Seq::empty()
    }) + (if p.run_user is Some {
        seq!["--user"@]
    } else {
        Seq::empty()
    });
    let words = with_word(
        with_word(pip_words(p, "install"@), "--break-system-packages"@, managed),
        "--user"@,
        p.run_user is Some,
    );
    assert(words =~= base);
    assert(words.push("--upgrade"@).push("pip"@) =~= base + seq!["--upgrade"@, "pip"@]);
    assert(words.push(package) =~= base + seq![package]);
}

/// Each action of the galaxy is run with its own words, in their order, until one fails.
pub proof fn each_action_is_run<H: Host>(m: Control<H>, p: PullSpec, actions: Seq<Val>)
    ensures
        ({
            let (after, done) = actions_run::<H>(m, p, actions);
            let n = m.calls.len() as int;
            &&& n <= after.calls.len() <= n + actions.len()
            &&& after.calls.take(n) == m.calls
            &&& done is Ok ==> after.calls.len() == n + actions.len()
            &&& forall|i: int| #![trigger after.calls[i]]
                n <= i < after.calls.len() ==> actions[i - n] is Array && after.calls[i] == command(
                    p,
                    Seq::new(actions[i - n]->Array_0.len(), |j: int| show(actions[i - n]->Array_0[j])),
                    None,
                )
        }),
    decreases actions.len(),
{
    let (after, done) = actions_run::<H>(m, p, actions);
    let n = m.calls.len() as int;
    if actions.len() > 0 && actions[0] is Array {
        let words = Seq::new(actions[0]->Array_0.len(), |j: int| show(actions[0]->Array_0[j]));
        assert(shows(actions[0]->Array_0) =~= words);
        let (m1, out) = run_as::<H>(m, p, words, None);
        assert(m1.calls =~= m.calls.push(command(p, words, None)));
        if out is Ok {
            each_action_is_run::<H>(m1, p, actions.skip(1));
            assert(after.calls.take(n) =~= after.calls.take(n + 1).take(n));
            assert forall|i: int| #![trigger after.calls[i]] n <= i < after.calls.len() implies actions[i - n] is Array
                && after.calls[i] == command(
                p,
                Seq::new(actions[i - n]->Array_0.len(), |j: int| show(actions[i - n]->Array_0[j])),
                None,
            ) by {
                if i == n {
                    assert(after.calls[n] == after.calls.take(n + 1)[n]);
                } else {
                    assert(actions.skip(1)[i - n - 1] == actions[i - n]);
                }
            }
        }
    }
    assert(after.calls.take(n) =~= m.calls);
}

/// Galaxy goes first, then what is pulled, and the controller last; a failure ends it.
pub proof fn tasks_are_run_in_order<H: Host>(m: Control<H>, p: PullSpec, cfg: Seq<(Seq<char>, Val)>)
    ensures
        ({
            let galaxy = if is_given(cfg, "galaxy"@) {
                galaxy_run::<H>(m, p, get(cfg, "galaxy"@)->0)
            } else {
                (m, Ok(()))
            };
            let pull = if is_given(cfg, "pull"@) {
                value_pulled::<H>(galaxy.0, p, get(cfg, "pull"@)->0)
            } else {
                (galaxy.0, Ok(()))
            };
            let controller = if is_given(cfg, "setup_controller"@) {
                controller_run::<H>(pull.0, p, get(cfg, "setup_controller"@)->0)
            } else {
                (pull.0, Ok(()))
            };
            tasks_run::<H>(m, p, cfg) == if galaxy.1 is Err {
                galaxy
            } else if pull.1 is Err {
                pull
            } else {
                controller
            }
        }),
{
}

/// Commands are run with the home directory, and with the configuration file where one
/// is named; as the user that is named.
pub proof fn what_commands_are_run_with(cfg: Seq<(Seq<char>, Val)>, python: Seq<char>, home: Seq<char>, file: Seq<char>)
    requires
        get(cfg, "ansible_config"@) == Some(Val::Text(file)),
        file.len() > 0,
    ensures
        ({
            let p = with_config(first_pull(cfg, python, home), cfg);
            &&& p.env == seq![("HOME"@, home), ("ansible_config"@, file)]
            &&& p.python == python
            &&& p.run_user == (match get(cfg, "run_user"@) {
                Some(Val::Text(user)) => Some(user),
                _ => None,
            })
            &&& p.method == (if get(cfg, "install_method"@) == Some(Val::Text("pip"@)) {
                Method::Pip
            } else {
                Method::Distro
            })
        }),
{
    reveal_strlit("HOME");
    reveal_strlit("ansible_config");
    let p = first_pull(cfg, python, home);
    assert("HOME"@.len() != "ansible_config"@.len());
    assert(p.env.skip(1) =~= Seq::empty());
    assert(table_set(p.env.skip(1), "ansible_config"@, file) == seq![("ansible_config"@, file)]);
    assert(table_set(p.env, "ansible_config"@, file) == seq![p.env[0]] + table_set(
        p.env.skip(1),
        "ansible_config"@,
        file,
    ));
    assert(with_config(p, cfg).env =~= seq![("HOME"@, home), ("ansible_config"@, file)]);
}

/// A configuration is accepted exactly if it names a method that is known and a package,
/// and neither what is pulled nor the controller has a fault.
pub proof fn what_a_configuration_must_say(cfg: Seq<(Seq<char>, Val)>)
    ensures
        config_fault(cfg) is None <==> {
            &&& get(cfg, "install_method"@) == Some(Val::Text("pip"@)) || get(cfg, "install_method"@) == Some(
                Val::Text("distro"@),
            )
            &&& get(cfg, "package_name"@) matches Some(v) && truthy(v)
            &&& pulls_fault(cfg) is None
            &&& controller_fault(cfg) is None
        },
{
    reveal_strlit("pip");
    reveal_strlit("distro");
}

/// An entry to pull is accepted exactly if it is a mapping with an address and with either
/// one playbook or several, and not both.
pub proof fn what_a_pull_must_say(entry: Seq<(Seq<char>, Val)>)
    ensures
        pull_fault(Val::Object(entry)) is None <==> {
            &&& get(entry, "url"@) matches Some(v) && truthy(v)
            &&& (get(entry, "playbook_name"@) matches Some(v) && truthy(v)) != (get(entry, "playbook_names"@) matches Some(
                v,
            ) && truthy(v))
        },
{
}

/// A command as a user is run by `su`, in the directory, with every word quoted.
pub proof fn the_words_of_a_user(argv: Seq<Seq<char>>, user: Seq<char>, dir: Seq<char>)
    ensures
        su_words(argv, user, Some(dir)).take(4) == seq!["su"@, "-"@, user, "-c"@],
        su_words(argv, user, Some(dir)).len() == 5,
        su_words(argv, user, Some(dir))[4] == "cd "@ + dir + " && "@ + "env PATH=$PATH "@ + join(
            Seq::new(argv.len(), |i: int| shell_quoted(argv[i])),
            " "@,
        ),
        su_words(argv, user, None)[4] == "env PATH=$PATH "@ + join(
            Seq::new(argv.len(), |i: int| shell_quoted(argv[i])),
            " "@,
        ),
{
    assert(su_words(argv, user, Some(dir)).take(4) =~= seq!["su"@, "-"@, user, "-c"@]);
    assert(Seq::<char>::empty() + "env PATH=$PATH "@ =~= "env PATH=$PATH "@);
}

/// The directory of a user's programs goes behind what is on the search path.
pub proof fn the_search_path_is_kept(env: Seq<(Seq<char>, Seq<char>)>, base: Seq<char>)
    ensures
        lookup(env, "PATH"@) is Some && lookup(env, "PATH"@)->0.len() > 0 ==> path_with(env, base) == lookup(
            env,
            "PATH"@,
        )->0 + ":"@ + base + "/bin/"@,
        lookup(env, "PATH"@) is None ==> path_with(env, base) == base + "/bin/"@,
{
    let before = lookup(env, "PATH"@)->0;
    assert(before + ":"@ + (base + "/bin/"@) =~= before + ":"@ + base + "/bin/"@);
}

/// One pull after the other, and a failure ends it; what is no mapping is passed over.
pub proof fn pulls_come_one_by_one<H: Host>(m: Control<H>, p: PullSpec, cfg: Seq<(Seq<char>, Val)>, rest: Seq<Val>, text: Seq<char>)
    ensures
        ({
            let (m1, done) = entry_pulled::<H>(m, p, cfg);
            let r = all_pulled::<H>(m, p, seq![Val::Object(cfg)] + rest);
            &&& done is Err ==> r.0 == m1 && r.1 is Err
            &&& done is Ok ==> r == all_pulled::<H>(m1, p, rest)
        }),
        all_pulled::<H>(m, p, seq![Val::Text(text)] + rest) == all_pulled::<H>(
            m,
            p,
            rest,
        ),
        all_pulled::<H>(m, p, Seq::empty()).0 == m,
{
    let all = seq![Val::Object(cfg)] + rest;
    assert(all[0] == Val::Object(cfg));
    assert(all.skip(1) =~= rest);
    let other = seq![Val::Text(text)] + rest;
    assert(other[0] == Val::Text(text));
    assert(other.skip(1) =~= rest);
}

/// Nothing is run unless ansible is there once it was installed.
pub proof fn nothing_is_run_without_ansible<H: Host>(m: Control<H>, p: PullSpec, cfg: Seq<(Seq<char>, Val)>)
    ensures
        ({
            let package = match get(cfg, "package_name"@) {
                Some(Val::Text(s)) => s,
                _ => ""@,
            };
            let (m1, done) = install::<H>(m, p, package);
            let (m2, there) = installed::<H>(m1, p);
            let r = installed_and_run::<H>(m, p, cfg);
            &&& done is Err ==> r.0 == m1 && r.1 is Err
            &&& done is Ok && there == Ok::<bool, Seq<char>>(false) ==> r == (
                m2,
                Err::<(), Seq<char>>("command: ansible is not installed"@),
            )
        }),
{
}

/// The first entry with a fault is the one that is told.
pub proof fn the_first_fault_is_told(item: Val, rest: Seq<Val>)
    ensures
        pull_fault(item) is Some ==> pull_faults(seq![item] + rest)
            == pull_fault(item),
        pull_fault(item) is None ==> pull_faults(seq![item] + rest)
            == pull_faults(rest),
        pull_faults(Seq::empty()) is None,
{
    let all = seq![item] + rest;
    assert(all[0] == item);
    assert(all.skip(1) =~= rest);
}

/// The version is the first run of digits and points.
pub proof fn the_first_numeral_is_the_version(head: Seq<char>, numeral: Seq<char>, gap: char, rest: Seq<char>)
    requires
        forall|i: int|
            0 <= i < head.len() ==> !within(Class::Numeral, #[trigger] head[i]),
        forall|i: int|
            0 <= i < numeral.len() ==> within(Class::Numeral, #[trigger] numeral[i]),
        numeral.len() > 0,
        !within(Class::Numeral, gap),
    ensures
        numeral_in(head + numeral + seq![gap] + rest) == Some(numeral),
        numeral_in(head) is None,
{
    let k = Class::Numeral;
    let line = head + numeral + seq![gap] + rest;
    let at = head.len() as int;
    assert(line[at] == numeral[0]);
    first_is(k, line, at);
    first_is_none(k, head);
    let tail = line.skip(at);
    assert(tail =~= numeral + seq![gap] + rest);
    run_is_trimmed(k, numeral, seq![gap] + rest);
    assert(numeral + (seq![gap] + rest) =~= tail);
    assert(tail.take(numeral.len() as int) =~= numeral);
}

proof fn first_is(k: Class, s: Seq<char>, i: int)
    requires
        0 <= i < s.len(),
        within(k, s[i]),
        forall|j: int| 0 <= j < i ==> !within(k, #[trigger] s[j]),
    ensures
        first_of(k, s) == i,
    decreases s.len(),
{
    if i > 0 {
        assert(!within(k, s[0]));
        assert(s.skip(1)[i - 1] == s[i]);
        assert forall|j: int| 0 <= j < i - 1 implies !within(k, #[trigger] s.skip(1)[j]) by {
            assert(s.skip(1)[j] == s[j + 1]);
        }
        first_is(k, s.skip(1), i - 1);
    }
}

proof fn first_is_none(k: Class, s: Seq<char>)
    requires
        forall|j: int| 0 <= j < s.len() ==> !within(k, #[trigger] s[j]),
    ensures
        first_of(k, s) == s.len(),
    decreases s.len(),
{
    if s.len() > 0 {
        assert(!within(k, s[0]));
        assert forall|j: int| 0 <= j < s.skip(1).len() implies !within(k, #[trigger] s.skip(1)[j]) by {
            assert(s.skip(1)[j] == s[j + 1]);
        }
        first_is_none(k, s.skip(1));
    }
}

proof fn run_is_trimmed(k: Class, run: Seq<char>, rest: Seq<char>)
    requires
        forall|j: int| 0 <= j < run.len() ==> within(k, #[trigger] run[j]),
        rest.len() > 0,
        !within(k, rest[0]),
    ensures
        trim_start(k, run + rest) == rest,
    decreases run.len(),
{
    let s = run + rest;
    if run.len() > 0 {
        assert(within(k, run[0]));
        assert(s[0] == run[0]);
        assert forall|j: int| 0 <= j < run.skip(1).len() implies within(k, #[trigger] run.skip(1)[j]) by {
            assert(run.skip(1)[j] == run[j + 1]);
        }
        run_is_trimmed(k, run.skip(1), rest);
        assert(s.skip(1) =~= run.skip(1) + rest);
    } else {
        assert(s =~= rest);
    }
}

/// Only where commands are run as a user is the user's directory asked for.
pub proof fn whose_programs_are_added<H: Host>(m: Control<H>, p: PullSpec)
    ensures
        p.run_user is None ==> site_added::<H>(m, p) == (m, Ok::<PullSpec, Seq<char>>(p)),
        p.run_user is Some ==> site_added::<H>(m, p).0 == run_as::<H>(
            m,
            p,
            seq![p.python, "-c"@, "import site; print(site.getuserbase())"@],
            None,
        ).0,
{
}

} // verus!
