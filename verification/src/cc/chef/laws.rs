//! What is promised of setting up chef.

use vstd::prelude::*;

use crate::cc::chef::{
    client_command, configure, default_params, gem_command, install, install_gems, install_omnibus, is_template_key,
    link_program, migrate, migrate_all, move_files, number_at, param, param_dirs, posix_parent, ruby_packages,
    run_client, run_script, set_up_client, shown_or, template_params, unknown_told, wanted_dirs, with_entries,
    with_params, write_client_rb, write_first_boot, write_validation,
};
use crate::cc::chef::host::{ask_instance_id, ask_template_path, logged, Call, Host, Kitchen};
use crate::dumps::dumped;
use crate::machine::asked;
use crate::number::{dec, dec_int};
use crate::number::laws::{a_written_number, signs_are_read};
use crate::order::with_text;
use crate::paths::path_joined;
use crate::show::show;
use crate::space::{trim, within};
use crate::value::{get, get_after_put, index_of, index_of_is_first, keys_distinct, put, Val};

verus! {

/// The directories that are made are the configured ones, or else six of chef's own, and
/// `/etc/chef` behind them.
pub proof fn which_directories_are_made(cfg: Seq<(Seq<char>, Val)>, items: Seq<Val>)
    ensures
        get(cfg, "directories"@) == Some(Val::Array(items)) && items.len() > 0 ==> wanted_dirs(Val::Object(cfg)) == Ok::<
            Seq<Val>,
            Seq<char>,
        >(items.push(Val::Text("/etc/chef"@))),
        get(cfg, "directories"@) is None ==> wanted_dirs(Val::Object(cfg)) == Ok::<Seq<Val>, Seq<char>>(
            seq![
                Val::Text("/etc/chef"@),
                Val::Text("/var/log/chef"@),
                Val::Text("/var/lib/chef"@),
                Val::Text("/var/chef/cache"@),
                Val::Text("/var/chef/backup"@),
                Val::Text("/var/run/chef"@),
                Val::Text("/etc/chef"@),
            ],
        ),
{
    if get(cfg, "directories"@) is None {
        assert(wanted_dirs(Val::Object(cfg))->Ok_0 =~= seq![
            Val::Text("/etc/chef"@),
            Val::Text("/var/log/chef"@),
            Val::Text("/var/lib/chef"@),
            Val::Text("/var/chef/cache"@),
            Val::Text("/var/chef/backup"@),
            Val::Text("/var/run/chef"@),
            Val::Text("/etc/chef"@),
        ]);
    }
}

/// What is in the old directory of the cache goes to the new one, and then what is in that
/// of backups.
pub proof fn old_directories_are_emptied<H: Host>(m: Kitchen<H>)
    ensures
        ({
            let (m1, first) = migrate::<H>(m, "/var/cache/chef"@, "/var/chef/cache"@);
            migrate_all::<H>(m) == if first is Ok {
                migrate::<H>(m1, "/var/backups/chef"@, "/var/chef/backup"@)
            } else {
                (m1, first)
            }
        }),
{
}

/// A file is moved from the old directory to the new one unless there is one of its name;
/// then it stays.
pub proof fn a_file_is_moved_once<H: Host>(m: Kitchen<H>, from: Seq<char>, to: Seq<char>, name: Seq<char>)
    ensures
        ({
            let (after, done) = move_files::<H>(m, from, to, seq![name]);
            let there = Call::Exists(path_joined(to, name));
            let n = m.calls.len() as int;
            &&& after.calls[n] == there
            &&& after.calls[n + 1] is Report
            &&& H::reply(m.world, there).1->Flag_0 ==> after.calls.len() == n + 2 && done is Ok
            &&& !H::reply(m.world, there).1->Flag_0 ==> after.calls.len() == n + 3 && after.calls[n + 2] == Call::Move {
                src: path_joined(from, name),
                dest: to,
            }
        }),
{
    reveal_with_fuel(move_files, 2);
    assert(seq![name].skip(1) =~= Seq::empty());
}

/// The validation key is written where it is configured to be, or to its usual place. One
/// that is the system's is not written.
pub proof fn where_the_validation_key_goes<H: Host>(m: Kitchen<H>, cfg: Seq<(Seq<char>, Val)>, text: Seq<char>)
    requires
        get(cfg, "validation_cert"@) == Some(Val::Text(text)),
        text.len() > 0,
    ensures
        ({
            let path = match get(cfg, "validation_key"@) {
                Some(v) => show(v),
                None => "/etc/chef/validation.pem"@,
            };
            let after = write_validation::<H>(m, cfg).0;
            &&& text != "system"@ ==> after.calls == m.calls.push(Call::WriteFile { path, content: text, mode: 0o644 })
            &&& text == "system"@ ==> {
                let there = H::reply(m.world, Call::IsFile(path)).1->Flag_0;
                &&& there ==> after.calls == m.calls.push(Call::IsFile(path))
                &&& !there ==> after.calls.len() == m.calls.len() + 2 && after.calls.last() is Report
                &&& write_validation::<H>(m, cfg).1 is Ok
            }
        }),
{
}

proof fn the_last_is_there(cfg: Seq<(Seq<char>, Val)>, key: Seq<char>)
    requires
        cfg.len() > 0,
        keys_distinct(cfg),
    ensures
        keys_distinct(cfg.drop_last()),
        cfg.last().0 == key ==> get(cfg, key) == Some(cfg.last().1) && get(cfg.drop_last(), key) is None,
        cfg.last().0 != key ==> get(cfg, key) == get(cfg.drop_last(), key),
{
    let before = cfg.drop_last();
    index_of_is_first(cfg, key);
    index_of_is_first(before, key);
    match index_of(before, key) {
        Some(i) => {
            assert(before[i] == cfg[i]);
            if cfg.last().0 == key {
                assert(cfg[i].0 != cfg[cfg.len() - 1].0);
            }
        },
        None => {
            match index_of(cfg, key) {
                Some(i) => {
                    if i < before.len() {
                        assert(before[i] == cfg[i]);
                    }
                },
                None => {},
            }
        },
    }
    match index_of(cfg, key) {
        Some(i) => {
            if i < before.len() {
                assert(before[i] == cfg[i]);
            }
            if cfg.last().0 == key {
                assert(cfg[cfg.len() - 1].0 == key);
            }
        },
        None => {
            if cfg.last().0 == key {
                assert(cfg[cfg.len() - 1].0 == key);
            }
        },
    }
}

proof fn settings_replace_defaults(params: Seq<(Seq<char>, Val)>, cfg: Seq<(Seq<char>, Val)>, key: Seq<char>)
    requires
        keys_distinct(cfg),
    ensures
        get(with_params(params, cfg), key) == (if is_template_key(key) && get(cfg, key) is Some {
            Some(param(key, get(cfg, key)->0))
        } else {
            get(params, key)
        }),
    decreases cfg.len(),
{
    if cfg.len() > 0 {
        the_last_is_there(cfg, key);
        settings_replace_defaults(params, cfg.drop_last(), key);
        get_after_put(
            with_params(params, cfg.drop_last()),
            cfg.last().0,
            param(cfg.last().0, cfg.last().1),
            key,
        );
    } else {
        index_of_is_first(cfg, key);
    }
}

/// What the template of the client is given: for the server, the validation name, the node
/// and the environment what is configured, with the instance and `_default` for the last
/// two where nothing is.
pub proof fn what_the_client_is_told(cfg: Seq<(Seq<char>, Val)>, iid: Seq<char>, header: Seq<char>, server: Val, name: Val)
    requires
        get(cfg, "server_url"@) == Some(server),
        get(cfg, "validation_name"@) == Some(name),
    ensures
        template_params(cfg, iid, header) is Ok,
        ({
            let p = template_params(cfg, iid, header)->Ok_0;
            &&& get(p, "server_url"@) == Some(server)
            &&& get(p, "validation_name"@) == Some(name)
            &&& get(p, "generated_by"@) == Some(Val::Text(header))
            &&& get(p, "node_name"@) == Some(
                Val::Text(
                    match get(cfg, "node_name"@) {
                        Some(v) => show(v),
                        None => iid,
                    },
                ),
            )
            &&& get(p, "environment"@) == Some(
                Val::Text(
                    match get(cfg, "environment"@) {
                        Some(v) => show(v),
                        None => "_default"@,
                    },
                ),
            )
        }),
{
    five_names_differ();
    let node = match get(cfg, "node_name"@) {
        Some(v) => show(v),
        None => iid,
    };
    let env = match get(cfg, "environment"@) {
        Some(v) => show(v),
        None => "_default"@,
    };
    let p0 = with_params(default_params(), cfg);
    let p1 = put(p0, "generated_by"@, Val::Text(header));
    let p2 = put(p1, "node_name"@, Val::Text(node));
    let p3 = put(p2, "environment"@, Val::Text(env));
    let p4 = put(p3, "server_url"@, server);
    get_after_put(p0, "generated_by"@, Val::Text(header), "generated_by"@);
    get_after_put(p1, "node_name"@, Val::Text(node), "generated_by"@);
    get_after_put(p2, "environment"@, Val::Text(env), "generated_by"@);
    get_after_put(p2, "environment"@, Val::Text(env), "node_name"@);
    get_after_put(p3, "server_url"@, server, "generated_by"@);
    get_after_put(p3, "server_url"@, server, "node_name"@);
    get_after_put(p3, "server_url"@, server, "environment"@);
    get_after_put(p4, "validation_name"@, name, "generated_by"@);
    get_after_put(p4, "validation_name"@, name, "node_name"@);
    get_after_put(p4, "validation_name"@, name, "environment"@);
    get_after_put(p4, "validation_name"@, name, "server_url"@);
}

proof fn five_names_differ()
    ensures
        "generated_by"@.len() == 12,
        "node_name"@.len() == 9,
        "environment"@.len() == 11,
        "server_url"@.len() == 10,
        "validation_name"@.len() == 15,
{
    reveal_strlit("generated_by");
    reveal_strlit("node_name");
    reveal_strlit("environment");
    reveal_strlit("server_url");
    reveal_strlit("validation_name");
}

/// Another setting that the template knows replaces its default, as it is printed; one
/// that it does not know does not reach it.
pub proof fn a_setting_replaces_its_default(cfg: Seq<(Seq<char>, Val)>, iid: Seq<char>, header: Seq<char>, key: Seq<char>)
    requires
        keys_distinct(cfg),
        template_params(cfg, iid, header) is Ok,
        key != "generated_by"@,
        key != "node_name"@,
        key != "environment"@,
        key != "server_url"@,
        key != "validation_name"@,
    ensures
        ({
            let p = template_params(cfg, iid, header)->Ok_0;
            &&& get(cfg, key) is None ==> get(p, key) == get(default_params(), key)
            &&& key == "log_level"@ || key == "log_location"@ || key == "ssl_verify_mode"@ || key == "client_key"@ || key
                == "validation_key"@ || key == "json_attribs"@ || key == "file_cache_path"@ || key == "file_backup_path"@
                || key == "pid_file"@ || key == "chef_license"@ || key == "encrypted_data_bag_secret"@ || key
                == "validation_cert"@ ==> {
                get(cfg, key) is Some && get(cfg, key)->0 !is Null ==> get(p, key) == Some(Val::Text(show(get(cfg, key)->0)))
            }
        }),
{
    let server = get(cfg, "server_url"@)->0;
    let name = get(cfg, "validation_name"@)->0;
    let node = match get(cfg, "node_name"@) {
        Some(v) => show(v),
        None => iid,
    };
    let env = match get(cfg, "environment"@) {
        Some(v) => show(v),
        None => "_default"@,
    };
    let p0 = with_params(default_params(), cfg);
    let p1 = put(p0, "generated_by"@, Val::Text(header));
    let p2 = put(p1, "node_name"@, Val::Text(node));
    let p3 = put(p2, "environment"@, Val::Text(env));
    let p4 = put(p3, "server_url"@, server);
    settings_replace_defaults(default_params(), cfg, key);
    get_after_put(p0, "generated_by"@, Val::Text(header), key);
    get_after_put(p1, "node_name"@, Val::Text(node), key);
    get_after_put(p2, "environment"@, Val::Text(env), key);
    get_after_put(p3, "server_url"@, server, key);
    get_after_put(p4, "validation_name"@, name, key);
    reveal_strlit("show_time");
    reveal_strlit("log_level");
    reveal_strlit("log_location");
    reveal_strlit("ssl_verify_mode");
    reveal_strlit("client_key");
    reveal_strlit("validation_key");
    reveal_strlit("json_attribs");
    reveal_strlit("file_cache_path");
    reveal_strlit("file_backup_path");
    reveal_strlit("pid_file");
    reveal_strlit("chef_license");
    reveal_strlit("encrypted_data_bag_secret");
    reveal_strlit("validation_cert");
    assert("show_time"@.len() == 9 && "show_time"@[0] == 's');
    assert("log_level"@.len() == 9 && "log_level"@[0] == 'l');
    assert("pid_file"@.len() == 8);
    assert("client_key"@.len() == 10);
}

/// The paths and settings that the template has where nothing is configured.
pub proof fn the_defaults_of_the_client()
    ensures
        ({
            let d = default_params();
            &&& d.len() == 12
            &&& d[0] == ("ssl_verify_mode"@, Val::Text(":verify_none"@))
            &&& d[1] == ("log_level"@, Val::Text(":info"@))
            &&& d[2] == ("log_location"@, Val::Text("/var/log/chef/client.log"@))
            &&& d[3] == ("validation_key"@, Val::Text("/etc/chef/validation.pem"@))
            &&& d[4] == ("validation_cert"@, Val::Null)
            &&& d[5] == ("client_key"@, Val::Text("/etc/chef/client.pem"@))
            &&& d[6] == ("json_attribs"@, Val::Text("/etc/chef/firstboot.json"@))
            &&& d[7] == ("file_cache_path"@, Val::Text("/var/chef/cache"@))
            &&& d[8] == ("file_backup_path"@, Val::Text("/var/chef/backup"@))
            &&& d[9] == ("pid_file"@, Val::Text("/var/run/chef/client.pid"@))
            &&& d[10] == ("show_time"@, Val::Bool(true))
            &&& d[11] == ("encrypted_data_bag_secret"@, Val::Null)
        }),
{
}

/// The client's configuration is rendered from its template to the configured path or to
/// the usual one, for everybody to read.
pub proof fn where_the_clients_configuration_goes<H: Host>(m: Kitchen<H>, cfg: Seq<(Seq<char>, Val)>)
    ensures
        ({
            let (after, done) = write_client_rb::<H>(m, cfg);
            let n = m.calls.len() as int;
            let found = H::reply(m.world, Call::TemplatePath("chef_client.rb"@)).1->Template_0;
            let target = match get(cfg, "config_path"@) {
                Some(v) => show(v),
                None => "/etc/chef/client.rb"@,
            };
            &&& after.calls.len() > n
            &&& after.calls[n] == Call::TemplatePath("chef_client.rb"@)
            &&& !found.1 ==> done is Ok && after.calls.len() == n + 3
            &&& found.1 && done is Ok ==> (after.calls.last() matches Call::WriteFile { path, mode, .. } && path == target && mode
                == 0o644)
        }),
{
    let (m1, template) = ask_template_path::<H>(m, "chef_client.rb"@);
    let (m2, iid) = ask_instance_id::<H>(m1);
    lines_only_add::<H>(m2, cfg);
}

proof fn lines_only_add<H: Host>(m: Kitchen<H>, cfg: Seq<(Seq<char>, Val)>)
    ensures
        unknown_told::<H>(m, cfg).calls.len() >= m.calls.len(),
        unknown_told::<H>(m, cfg).calls.take(m.calls.len() as int) == m.calls,
        forall|i: int|
            0 <= i < m.calls.len() ==> #[trigger] unknown_told::<H>(m, cfg).calls[i] == m.calls[i],
    decreases cfg.len(),
{
    let after = unknown_told::<H>(m, cfg);
    if cfg.len() == 0 {
        assert(m.calls.take(m.calls.len() as int) =~= m.calls);
    } else if is_template_key(cfg[0].0) {
        lines_only_add::<H>(m, cfg.skip(1));
    } else {
        let m1 = logged::<H>(m, "Skipping unknown chef template key '"@ + cfg[0].0 + "'"@);
        lines_only_add::<H>(m1, cfg.skip(1));
        assert(after.calls.take(m.calls.len() as int) =~= m.calls);
    }
}

/// What the first boot starts with is written as JSON to the configured path or to the
/// usual one: the list of what to run, and the attributes.
pub proof fn what_the_first_boot_starts_with<H: Host>(m: Kitchen<H>, cfg: Seq<(Seq<char>, Val)>, list: Val)
    requires
        get(cfg, "run_list"@) == Some(list),
        get(cfg, "initial_attributes"@) is None,
        get(cfg, "firstboot_path"@) is None,
    ensures
        write_first_boot::<H>(m, cfg).0.calls == m.calls.push(
            Call::WriteFile {
                path: "/etc/chef/firstboot.json"@,
                content: dumped(Val::Object(seq![("run_list"@, list)])),
                mode: 0o644,
            },
        ),
{
    reveal_strlit("/etc/chef/firstboot.json");
    let none = Seq::<(Seq<char>, Val)>::empty();
    index_of_is_first(none, "run_list"@);
    assert(put(none, "run_list"@, list) =~= seq![("run_list"@, list)]);
}

/// The packages of a version of Ruby.
pub proof fn which_packages_ruby_is(version: Seq<char>)
    ensures
        version != "1.8"@ ==> ruby_packages(version) == seq!["ruby"@ + version, "ruby"@ + version + "-dev"@],
        ruby_packages("1.8"@) == seq![
            "ruby"@ + "1.8"@,
            "ruby"@ + "1.8"@ + "-dev"@,
            "libopenssl-ruby1.8"@,
            "rubygems1.8"@,
        ],
{
    assert(ruby_packages("1.8"@) =~= seq![
        "ruby"@ + "1.8"@,
        "ruby"@ + "1.8"@ + "-dev"@,
        "libopenssl-ruby1.8"@,
        "rubygems1.8"@,
    ]);
}

/// A program that is not there is linked to that of the version of Ruby.
pub proof fn a_program_is_linked_to_its_version<H: Host>(m: Kitchen<H>, program: Seq<char>, version: Seq<char>)
    ensures
        ({
            let there = H::reply(m.world, Call::Exists(program)).1->Flag_0;
            link_program::<H>(m, program, version).0.calls == if there {
                m.calls.push(Call::Exists(program))
            } else {
                m.calls.push(Call::Exists(program)).push(Call::SymLink { source: program + version, link: program })
            }
        }),
{
}

/// The words that install the gem.
pub proof fn the_words_that_install_the_gem(version: Seq<char>)
    ensures
        gem_command(None) == seq![
            "/usr/bin/gem"@,
            "install"@,
            "chef"@,
            "--no-ri"@,
            "--no-rdoc"@,
            "--bindir"@,
            "/usr/bin"@,
            "-q"@,
        ],
        version.len() > 0 ==> gem_command(Some(version)) == seq![
            "/usr/bin/gem"@,
            "install"@,
            "chef"@,
            "-v "@ + version,
            "--no-ri"@,
            "--no-rdoc"@,
            "--bindir"@,
            "/usr/bin"@,
            "-q"@,
        ],
{
}

/// A script is written to a file of its own that only its owner can run, and run with its
/// arguments.
pub proof fn a_script_is_written_and_run<H: Host>(
    m: Kitchen<H>,
    blob: Seq<char>,
    args: Seq<Seq<char>>,
    name: Seq<char>,
    dir: Seq<char>,
)
    requires
        H::reply(m.world, Call::TempDir).1->Read_0 == Ok::<Seq<char>, Seq<char>>(dir),
    ensures
        ({
            let (after, done) = run_script::<H>(m, blob, args, name);
            let script = path_joined(dir, name);
            let written = m.calls.push(Call::TempDir).push(Call::WriteFile { path: script, content: blob, mode: 0o700 });
            &&& done is Ok ==> after.calls == written.push(Call::Subp(seq![script] + args))
            &&& after.calls.len() >= written.len() && after.calls.take(written.len() as int) == written
        }),
{
    let (after, done) = run_script::<H>(m, blob, args, name);
    let script = path_joined(dir, name);
    let written = m.calls.push(Call::TempDir).push(Call::WriteFile { path: script, content: blob, mode: 0o700 });
    assert(after.calls.take(written.len() as int) =~= written);
}

/// The installer is fetched from its address, and run under its name with the version.
pub proof fn the_installer_is_fetched<H: Host>(m: Kitchen<H>, url: Seq<char>, retries: int, version: Seq<char>, content: Seq<char>)
    requires
        H::reply(m.world, Call::ReadUrl { url, retries }).1->Read_0 == Ok::<Seq<char>, Seq<char>>(content),
    ensures
        ({
            let m1 = asked(
                m,
                Call::ReadUrl { url, retries },
                H::reply(m.world, Call::ReadUrl { url, retries }).0,
            );
            &&& install_omnibus::<H>(m, url, retries, Some(version)) == run_script::<H>(
                m1,
                content,
                seq!["-v"@, version],
                "chef-omnibus-install"@,
            )
            &&& install_omnibus::<H>(m, url, retries, None) == run_script::<H>(
                m1,
                content,
                Seq::empty(),
                "chef-omnibus-install"@,
            )
        }),
{
}

/// How the client is installed: from the package `chef` where nothing else is said, as a
/// gem of Ruby 1.8 unless another is named, or by the installer from chef's own site.
pub proof fn how_the_client_is_installed<H: Host>(m: Kitchen<H>, cfg: Seq<(Seq<char>, Val)>)
    ensures
        get(cfg, "install_type"@) is None || get(cfg, "install_type"@) == Some(Val::Text("packages"@)) ==> install::<H>(
            m,
            cfg,
        ).0.calls == m.calls.push(Call::InstallPackages(seq!["chef"@])),
        get(cfg, "install_type"@) == Some(Val::Text("gems"@)) && get(cfg, "ruby_version"@) is None && get(cfg, "version"@) is None
            ==> install::<H>(m, cfg).0 == install_gems::<H>(m, "1.8"@, None).0,
        get(cfg, "install_type"@) == Some(Val::Text("omnibus"@)) && get(cfg, "omnibus_url"@) is None && get(
            cfg,
            "omnibus_url_retries"@,
        ) is None && get(cfg, "omnibus_version"@) is None ==> install::<H>(m, cfg).0 == install_omnibus::<H>(
            m,
            "https://www.chef.io/chef/install.sh"@,
            0,
            None,
        ).0,
        get(cfg, "install_type"@) == Some(Val::Text("gems"@)) && get(cfg, "exec"@) is None && install::<H>(m, cfg).1 is Ok
            ==> install::<H>(m, cfg).1 == Ok::<bool, Seq<char>>(true),
        get(cfg, "install_type"@) is None && get(cfg, "exec"@) is None && install::<H>(m, cfg).1 is Ok ==> install::<H>(
            m,
            cfg,
        ).1 == Ok::<bool, Seq<char>>(false),
{
    reveal_strlit("packages");
    reveal_strlit("gems");
    reveal_strlit("omnibus");
    assert("packages"@.len() == 8 && "gems"@.len() == 4 && "omnibus"@.len() == 7);
}

/// The words that run the client: the configured arguments, or that it runs in the
/// background every half hour.
pub proof fn the_words_that_run_the_client(cfg: Seq<(Seq<char>, Val)>)
    ensures
        get(cfg, "exec_arguments"@) is None ==> client_command(cfg) == seq![
            "/usr/bin/chef-client"@,
            "-d"@,
            "-i"@,
            "1800"@,
            "-s"@,
            "20"@,
        ],
        get(cfg, "exec_arguments"@) matches Some(Val::Text(text)) ==> client_command(cfg) == seq![
            "/usr/bin/chef-client"@,
            text,
        ],
        get(cfg, "exec_arguments"@) matches Some(Val::Array(items)) ==> client_command(cfg).len() == 1 + items.len()
            && client_command(cfg)[0] == "/usr/bin/chef-client"@ && forall|i: int|
            1 <= i < client_command(cfg).len() ==> #[trigger] client_command(cfg)[i] == show(items[i - 1]),
{
    if get(cfg, "exec_arguments"@) is None {
        assert(client_command(cfg) =~= seq!["/usr/bin/chef-client"@, "-d"@, "-i"@, "1800"@, "-s"@, "20"@]);
    }
}

/// A client that is there is not installed again unless that is forced, and it is run only
/// where that is asked for.
pub proof fn a_client_that_is_there_stays<H: Host>(m: Kitchen<H>, cfg: Seq<(Seq<char>, Val)>)
    requires
        H::reply(m.world, Call::IsExe("/usr/bin/chef-client"@)).1->Flag_0,
        get(cfg, "force_install"@) is None,
    ensures
        get(cfg, "exec"@) is None ==> set_up_client::<H>(m, cfg).1 is Ok && set_up_client::<H>(m, cfg).0.calls == m.calls.push(
            Call::IsExe("/usr/bin/chef-client"@),
        ),
        get(cfg, "exec"@) == Some(Val::Bool(true)) ==> set_up_client::<H>(m, cfg) == run_client::<H>(
            asked(
                m,
                Call::IsExe("/usr/bin/chef-client"@),
                H::reply(m.world, Call::IsExe("/usr/bin/chef-client"@)).0,
            ),
            cfg,
        ),
{
}

/// The validation key is removed behind a run only where that is asked for.
pub proof fn the_validation_key_goes_after_a_run<H: Host>(m: Kitchen<H>, cfg: Seq<(Seq<char>, Val)>)
    requires
        get(cfg, "exec_arguments"@) is None,
        run_client::<H>(m, cfg).1 is Ok,
    ensures
        get(cfg, "delete_validation_post_exec"@) is None ==> run_client::<H>(m, cfg).0.calls.last() is Subp,
        get(cfg, "delete_validation_post_exec"@) == Some(Val::Bool(true)) ==> {
            let after = run_client::<H>(m, cfg).0;
            let n = m.calls.len() as int;
            &&& after.calls[n + 1] is Subp
            &&& after.calls[n + 2] == Call::IsFile("/etc/chef/validation.pem"@)
            &&& after.calls.len() > n + 3 ==> after.calls[n + 3] == Call::Unlink("/etc/chef/validation.pem"@)
        },
{
}

/// The key comes first, then the client's configuration, what the first boot starts with,
/// and the client itself; the first failure ends it.
pub proof fn chef_is_set_up_in_order<H: Host>(m: Kitchen<H>, cfg: Seq<(Seq<char>, Val)>)
    ensures
        ({
            let a = write_validation::<H>(m, cfg);
            let b = write_client_rb::<H>(a.0, cfg);
            let c = write_first_boot::<H>(b.0, cfg);
            configure::<H>(m, cfg) == if a.1 is Err {
                a
            } else if b.1 is Err {
                b
            } else if c.1 is Err {
                c
            } else {
                set_up_client::<H>(c.0, cfg)
            }
        }),
{
}

/// Entries that are added are found, the last under each key, and no other key changes.
pub proof fn added_entries_are_found(m: Seq<(Seq<char>, Val)>, more: Seq<(Seq<char>, Val)>, key: Seq<char>)
    ensures
        get(with_entries(m, more), key) == match get_last(more, key) {
            Some(v) => Some(v),
            None => get(m, key),
        },
    decreases more.len(),
{
    if more.len() > 0 {
        added_entries_are_found(m, more.drop_last(), key);
        get_after_put(with_entries(m, more.drop_last()), more.last().0, more.last().1, key);
    }
}

/// What the last entry under a key holds.
pub open spec fn get_last(entries: Seq<(Seq<char>, Val)>, key: Seq<char>) -> Option<Val>
    decreases entries.len(),
{
    if entries.len() == 0 {
        None
    } else if entries.last().0 == key {
        Some(entries.last().1)
    } else {
        get_last(entries.drop_last(), key)
    }
}

/// A setting that is a number is read, and a default stands in where there is none.
pub proof fn a_number_is_read(cfg: Seq<(Seq<char>, Val)>, key: Seq<char>, default: int, n: int, text: Seq<char>)
    requires
        -0x8000_0000_0000_0000 <= n <= 0x7fff_ffff_ffff_ffff,
    ensures
        get(cfg, key) is None ==> number_at(cfg, key, default) == Ok::<int, Seq<char>>(default),
        get(cfg, key) == Some(Val::Text(dec_int(n))) ==> number_at(cfg, key, default) == Ok::<
            int,
            Seq<char>,
        >(n),
        get(cfg, key) == Some(Val::Text(text)) ==> shown_or(cfg, key, dec_int(n)) == text,
        get(cfg, key) is None ==> shown_or(cfg, key, text) == text,
{
    let d = dec_int(n);
    signs_are_read(n);
    if n < 0 {
        a_written_number((-n) as nat);
        let e = dec((-n) as nat);
        assert(within(crate::space::Class::Digit, e.last()));
        assert(d.last() == e.last());
        assert(d[0] == '-');
    } else {
        a_written_number(n as nat);
        assert(within(crate::space::Class::Digit, d.last()));
        assert(within(crate::space::Class::Digit, d[0]));
    }
    assert(trim(crate::space::Class::Space, d) == d);
}

/// The directories of paths in the client's configuration are made, and of nothing else.
pub proof fn directories_of_paths(params: Seq<(Seq<char>, Val)>, path: Seq<char>, key: Seq<char>)
    requires
        path.len() > 0,
    ensures
        param_dirs(Seq::empty()).len() == 0,
        key == "log_location"@ || key == "validation_key"@ || key == "client_key"@ || key == "file_cache_path"@ || key
            == "json_attribs"@ || key == "pid_file"@ || key == "encrypted_data_bag_secret"@
            ==> param_dirs(params.push((key, Val::Text(path)))) == with_text(
            param_dirs(params),
            posix_parent(path),
        ),
        key != "log_location"@ && key != "validation_key"@ && key != "client_key"@ && key != "file_cache_path"@ && key
            != "json_attribs"@ && key != "pid_file"@ && key != "encrypted_data_bag_secret"@
            ==> param_dirs(params.push((key, Val::Text(path)))) == param_dirs(params),
{
    assert(params.push((key, Val::Text(path))).drop_last() =~= params);
}

} // verus!
