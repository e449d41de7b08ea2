//! What is promised of setting up puppet.

use vstd::prelude::*;

use crate::case::lowercase;
use crate::cc::puppet::{
    agent_run, agent_words, aio_installed, aio_words, certificate_placed, cleaned, files_changed, installed,
    options_set, owner, package_installed, package_list, places, places_found, program, section_applied,
    sections_applied, services_managed, settings_changed, settings_saved, Places,
};
use crate::cc::puppet::host::{logged, Agent, Call, Host};
use crate::paths::path_joined;
use crate::show::show;
use crate::space::{trim_end, words, Class};
use crate::text::{ends, replaced, starts};
use crate::value::{get, Val};

verus! {

/// Something is done to `puppet-agent`, and to `puppet` only where that fails. It is
/// warned of where both fail.
pub proof fn the_agents_service_comes_first<H: Host>(m: Agent<H>, action: Seq<char>)
    ensures
        ({
            let after = services_managed::<H>(m, action);
            let first = Call::Service { action, service: "puppet-agent.service"@ };
            let second = Call::Service { action, service: "puppet.service"@ };
            let (w, a) = H::reply(m.world, first);
            let b = H::reply(w, second).1;
            &&& a->Managed_0 is Ok ==> after.calls == m.calls.push(first)
            &&& a->Managed_0 is Err && b->Managed_0 is Ok ==> after.calls == m.calls.push(first).push(second)
            &&& a->Managed_0 is Err && b->Managed_0 is Err ==> after.calls.drop_last() == m.calls.push(first).push(second)
                && after.calls.last() is Report
        }),
{
    let after = services_managed::<H>(m, action);
    let first = Call::Service { action, service: "puppet-agent.service"@ };
    let second = Call::Service { action, service: "puppet.service"@ };
    let (w, a) = H::reply(m.world, first);
    if a->Managed_0 is Err && H::reply(w, second).1->Managed_0 is Err {
        assert(after.calls.drop_last() =~= m.calls.push(first).push(second));
    }
}

/// What is installed: the named package, in the named version; without a name
/// `puppet-agent`, and `puppet` only where that cannot be.
pub proof fn which_package_is_installed<H: Host>(m: Agent<H>, name: Seq<char>, version: Option<Seq<char>>)
    ensures
        package_installed::<H>(m, Some(name), version).0.calls == m.calls.push(Call::Install(package_list(name, version))),
        package_list(name, None) == Val::Array(seq![Val::Text(name)]),
        version matches Some(v) && v.len() > 0 ==> package_list(name, version) == Val::Array(
            seq![Val::Array(seq![Val::Text(name), Val::Text(version->0)])],
        ),
        ({
            let after = package_installed::<H>(m, None, version).0;
            let first = Call::Install(package_list("puppet-agent"@, version));
            let second = Call::Install(package_list("puppet"@, version));
            &&& H::reply(m.world, first).1->Done_0 is Ok ==> after.calls == m.calls.push(first)
            &&& H::reply(m.world, first).1->Done_0 is Err ==> after.calls.len() >= m.calls.len() + 2 && after.calls.take(
                m.calls.len() as int + 2,
            ) == m.calls.push(first).push(second)
        }),
{
    let after = package_installed::<H>(m, None, version).0;
    let first = Call::Install(package_list("puppet-agent"@, version));
    let second = Call::Install(package_list("puppet"@, version));
    if H::reply(m.world, first).1->Done_0 is Err {
        assert(after.calls.take(m.calls.len() as int + 2) =~= m.calls.push(first).push(second));
    }
}

/// The installer of everything at once is fetched, written to a file of its own that only
/// its owner can run, and run with the version, the collection and the wish to clean up.
pub proof fn the_installer_is_fetched_and_run<H: Host>(
    m: Agent<H>,
    url: Seq<char>,
    version: Option<Seq<char>>,
    collection: Option<Seq<char>>,
    cleanup: bool,
    content: Seq<char>,
    dir: Seq<char>,
)
    requires
        H::reply(m.world, Call::ReadUrl(url)).1->Read_0 == Ok::<Seq<char>, Seq<char>>(content),
        H::reply(H::reply(m.world, Call::ReadUrl(url)).0, Call::TempDir).1->Read_0 == Ok::<Seq<char>, Seq<char>>(dir),
    ensures
        ({
            let (after, done) = aio_installed::<H>(m, url, version, collection, cleanup);
            let script = path_joined(dir, "puppet-install"@);
            let fetched = m.calls.push(Call::ReadUrl(url)).push(Call::TempDir).push(
                Call::WriteFile { path: script, content, mode: Some(0o700) },
            );
            &&& done is Ok ==> after.calls == fetched.push(
                Call::Subp { argv: seq![script] + aio_words(version, collection, cleanup), capture: false },
            )
            &&& after.calls.len() >= fetched.len() && after.calls.take(fetched.len() as int) == fetched
        }),
{
    let (after, done) = aio_installed::<H>(m, url, version, collection, cleanup);
    let script = path_joined(dir, "puppet-install"@);
    let fetched = m.calls.push(Call::ReadUrl(url)).push(Call::TempDir).push(
        Call::WriteFile { path: script, content, mode: Some(0o700) },
    );
    assert(after.calls.take(fetched.len() as int) =~= fetched);
}

/// The options of the installer, in their order.
pub proof fn the_options_of_the_installer(version: Seq<char>, collection: Seq<char>)
    ensures
        aio_words(Some(version), Some(collection), true) == seq!["-v"@, version, "-c"@, collection, "--cleanup"@],
        aio_words(Some(version), Some(collection), false) == seq!["-v"@, version, "-c"@, collection],
        aio_words(None, Some(collection), true) == seq!["-c"@, collection, "--cleanup"@],
        aio_words(Some(version), None, false) == seq!["-v"@, version],
        aio_words(None, None, true) == seq!["--cleanup"@],
        aio_words(None, None, false) == Seq::<Seq<char>>::empty(),
{
}

/// Packages are the usual way, with the program where it is found and a user of its own.
/// Everything at once has its own place, and belongs to root.
pub proof fn where_puppet_is(cfg: Seq<(Seq<char>, Val)>)
    ensures
        get(cfg, "install_type"@) is None ==> program(cfg) == "puppet"@ && owner(cfg) == "puppet"@,
        get(cfg, "install_type"@) == Some(Val::Text("packages"@)) ==> program(cfg) == "puppet"@ && owner(cfg) == "puppet"@,
        get(cfg, "install_type"@) == Some(Val::Text("aio"@)) ==> program(cfg) == "/opt/puppetlabs/bin/puppet"@ && owner(cfg)
            == "root"@,
{
    reveal_strlit("packages");
    reveal_strlit("aio");
    assert("packages"@.len() != "aio"@.len());
}

/// Unless it is switched off, puppet is installed: from packages where nothing else is
/// said, and everything at once from its own site where no other is named.
pub proof fn puppet_is_installed_unless_switched_off<H: Host>(m: Agent<H>, cfg: Seq<(Seq<char>, Val)>)
    requires
        get(cfg, "version"@) is None,
        get(cfg, "collection"@) is None,
        get(cfg, "package_name"@) is None,
        get(cfg, "cleanup"@) is None,
        get(cfg, "aio_install_url"@) is None,
    ensures
        get(cfg, "install"@) == Some(Val::Bool(false)) ==> installed::<H>(m, cfg) == (m, Ok::<bool, Seq<char>>(true)),
        get(cfg, "install"@) is None && get(cfg, "install_type"@) is None ==> installed::<H>(m, cfg).0 == package_installed::<
            H,
        >(
            logged::<H>(m, "Attempting to install puppet latest from packages"@),
            None,
            None,
        ).0,
        get(cfg, "install"@) is None && get(cfg, "install_type"@) == Some(Val::Text("aio"@)) ==> installed::<H>(m, cfg).0
            == aio_installed::<H>(
            logged::<H>(m, "Attempting to install puppet latest from aio"@),
            "https://raw.githubusercontent.com/puppetlabs/install-puppet/main/install.sh"@,
            None,
            None,
            true,
        ).0,
{
    reveal_strlit("packages");
    reveal_strlit("aio");
    assert("packages"@.len() != "aio"@.len());
    reveal_strlit("Attempting to install puppet ");
    reveal_strlit("latest");
    reveal_strlit(" from ");
    reveal_strlit("Attempting to install puppet latest from packages");
    reveal_strlit("Attempting to install puppet latest from aio");
    assert("Attempting to install puppet "@ + "latest"@ + " from "@ + "packages"@
        =~= "Attempting to install puppet latest from packages"@);
    assert("Attempting to install puppet "@ + "latest"@ + " from "@ + "aio"@
        =~= "Attempting to install puppet latest from aio"@);
}

/// Puppet itself is asked for the paths that it uses; the configuration's come before them.
pub proof fn puppet_is_asked_for_its_paths<H: Host>(m: Agent<H>, cfg: Seq<(Seq<char>, Val)>)
    requires
        places_found::<H>(m, cfg).1 is Ok,
    ensures
        ({
            let (after, at) = places_found::<H>(m, cfg);
            let a = Call::Subp { argv: seq![program(cfg), "config"@, "print"@, "config"@], capture: true };
            let b = Call::Subp { argv: seq![program(cfg), "config"@, "print"@, "ssldir"@], capture: true };
            let c = Call::Subp { argv: seq![program(cfg), "config"@, "print"@, "csr_attributes"@], capture: true };
            let (w1, conf) = H::reply(m.world, a);
            let (w2, ssl) = H::reply(w1, b);
            let (w3, csr) = H::reply(w2, c);
            &&& after.calls == m.calls.push(a).push(b).push(c)
            &&& get(cfg, "conf_file"@) is None ==> at->Ok_0.conf_path == trim_end(Class::Space, conf->Output_0->Ok_0)
            &&& get(cfg, "ssl_dir"@) is None ==> at->Ok_0.ssl_dir == trim_end(Class::Space, ssl->Output_0->Ok_0)
            &&& get(cfg, "csr_attributes_path"@) is None ==> at->Ok_0.csr_attributes_path == trim_end(
                Class::Space,
                csr->Output_0->Ok_0,
            )
            &&& get(cfg, "conf_file"@) matches Some(Val::Text(s)) ==> at->Ok_0.conf_path == s
            &&& get(cfg, "ssl_dir"@) matches Some(Val::Text(s)) ==> at->Ok_0.ssl_dir == s
            &&& get(cfg, "csr_attributes_path"@) matches Some(Val::Text(s)) ==> at->Ok_0.csr_attributes_path == s
            &&& at->Ok_0.ssl_cert_dir == path_joined(at->Ok_0.ssl_dir, "certs"@)
            &&& at->Ok_0.ssl_cert_path == path_joined(path_joined(at->Ok_0.ssl_dir, "certs"@), "ca.pem"@)
        }),
{
}

/// The certificate of an authority is written under the directory of certificates, and the
/// directories and the file are the user's.
pub proof fn a_certificate_belongs_to_its_user<H: Host>(m: Agent<H>, at: Places, user: Seq<char>, cert: Seq<char>)
    requires
        certificate_placed::<H>(m, at, user, cert).1 is Ok,
    ensures
        certificate_placed::<H>(m, at, user, cert).0.calls == m.calls.push(
            Call::EnsureDir { path: at.ssl_dir, mode: Some(0o771) },
        ).push(Call::Chown { path: at.ssl_dir, user, group: "root"@ }).push(
            Call::EnsureDir { path: at.ssl_cert_dir, mode: None },
        ).push(Call::Chown { path: at.ssl_cert_dir, user, group: "root"@ }).push(
            Call::WriteFile { path: at.ssl_cert_path, content: cert, mode: None },
        ).push(Call::Chown { path: at.ssl_cert_path, user, group: "root"@ }),
{
}

/// The section `ca_cert` is the certificate of an authority; any other is a section of the
/// settings.
pub proof fn what_a_section_is<H: Host>(m: Agent<H>, at: Places, user: Seq<char>, name: Seq<char>, section: Val)
    ensures
        section_applied::<H>(m, at, user, "ca_cert"@, section) == certificate_placed::<H>(m, at, user, show(section)),
        name != "ca_cert"@ && section is Object ==> section_applied::<H>(m, at, user, name, section) == options_set::<H>(
            m,
            name,
            section->Object_0,
        ),
{
}

/// An option is set to its value as it is printed. In the name of a certificate, `%f` is
/// the machine's full name and `%i` the instance, and all of it is in lower case.
pub proof fn an_option_is_set<H: Host>(m: Agent<H>, section: Seq<char>, option: Seq<char>, value: Val)
    ensures
        option != "certname"@ ==> options_set::<H>(m, section, seq![(option, value)]).0.calls == m.calls.push(
            Call::SetConfig { section, option, value: show(value) },
        ),
        ({
            let (w, fqdn) = H::reply(m.world, Call::Fqdn);
            let iid = H::reply(w, Call::InstanceId).1;
            options_set::<H>(m, section, seq![("certname"@, value)]).0.calls == m.calls.push(Call::Fqdn).push(
                Call::InstanceId,
            ).push(
                Call::SetConfig {
                    section,
                    option: "certname"@,
                    value: lowercase(replaced(replaced(show(value), "%f"@, fqdn->Text_0), "%i"@, iid->Text_0)),
                },
            )
        }),
{
    reveal_with_fuel(options_set, 2);
    assert(seq![(option, value)].skip(1) =~= Seq::empty());
    assert(seq![("certname"@, value)].skip(1) =~= Seq::empty());
}

/// The settings file is put aside before it is written anew.
pub proof fn the_settings_are_put_aside<H: Host>(m: Agent<H>, path: Seq<char>)
    requires
        settings_saved::<H>(m, path).1 is Ok,
    ensures
        ({
            let aside = Call::Rename { src: path, dst: path + ".old"@ };
            let w = H::reply(m.world, aside).0;
            let text = H::reply(w, Call::ConfigText).1->Text_0;
            settings_saved::<H>(m, path).0.calls == m.calls.push(aside).push(Call::ConfigText).push(
                Call::WriteFile { path, content: text, mode: None },
            )
        }),
{
}

/// The agent is run with the arguments that are configured, and else for a test.
pub proof fn the_words_of_the_agent(cfg: Seq<(Seq<char>, Val)>)
    ensures
        agent_words(cfg).len() >= 2,
        agent_words(cfg)[0] == program(cfg),
        agent_words(cfg)[1] == "agent"@,
        get(cfg, "exec_args"@) is None ==> agent_words(cfg) == seq![program(cfg), "agent"@, "--test"@],
        get(cfg, "exec_args"@) matches Some(Val::Array(items)) ==> agent_words(cfg).len() == 2 + items.len() && forall|i: int|
            2 <= i < agent_words(cfg).len() ==> #[trigger] agent_words(cfg)[i] == show(items[i - 2]),
        get(cfg, "exec_args"@) matches Some(Val::Text(s)) ==> agent_words(cfg).skip(2) == words(Class::Space, s),
{
    if get(cfg, "exec_args"@) is None {
        assert(agent_words(cfg) =~= seq![program(cfg), "agent"@, "--test"@]);
    }
    if get(cfg, "exec_args"@) is Some && get(cfg, "exec_args"@)->0 is Text {
        assert(agent_words(cfg).skip(2) =~= words(Class::Space, get(cfg, "exec_args"@)->0->Text_0));
    }
}

/// The service is enabled, the agent is run, and the service is started, in this order. The
/// service is used unless that is switched off, and the agent is run only if that is
/// switched on.
pub proof fn the_agent_is_run_between<H: Host>(m: Agent<H>, cfg: Seq<(Seq<char>, Val)>)
    ensures
        get(cfg, "start_service"@) is None && get(cfg, "exec"@) is None ==> agent_run::<H>(m, cfg, true).0
            == services_managed::<H>(services_managed::<H>(m, "enable"@), "start"@),
        get(cfg, "start_service"@) == Some(Val::Bool(false)) && get(cfg, "exec"@) is None ==> agent_run::<H>(m, cfg, true)
            == (m, Ok::<(), Seq<char>>(())),
        get(cfg, "start_service"@) == Some(Val::Bool(false)) && get(cfg, "exec"@) == Some(Val::Bool(true)) && get(
            cfg,
            "exec_args"@,
        ) is None ==> {
            let after = agent_run::<H>(m, cfg, true).0;
            &&& after.calls.len() == m.calls.len() + 2
            &&& after.calls.last() == Call::Subp { argv: seq![program(cfg), "agent"@, "--test"@], capture: false }
        },
{
    the_words_of_the_agent(cfg);
}

/// The attributes of requests are written where puppet reads them.
pub proof fn the_attributes_of_requests<H: Host>(m: Agent<H>, at: Places, cfg: Seq<(Seq<char>, Val)>, csr: Val)
    requires
        get(cfg, "conf"@) is None,
        get(cfg, "csr_attributes"@) == Some(csr),
    ensures
        files_changed::<H>(m, at, cfg).0.calls == m.calls.push(Call::DumpYaml(csr)).push(
            Call::WriteFile {
                path: at.csr_attributes_path,
                content: H::reply(m.world, Call::DumpYaml(csr)).1->Text_0,
                mode: None,
            },
        ),
{
}

/// Certificates are kept below the directory of puppet's keys.
pub proof fn where_certificates_are_kept(conf: Seq<char>, ssl: Seq<char>, csr: Seq<char>)
    requires
        ssl.len() > 0,
        ssl.last() != '/',
    ensures
        ({
            let at = places(conf, ssl, csr);
            &&& at.conf_path == conf
            &&& at.ssl_dir == ssl
            &&& at.ssl_cert_dir == ssl + "/"@ + "certs"@
            &&& at.ssl_cert_path == ssl + "/"@ + "certs"@ + "/"@ + "ca.pem"@
            &&& at.csr_attributes_path == csr
        }),
{
    reveal_strlit("/");
    reveal_strlit("certs");
    reveal_strlit("ca.pem");
    let slash = "/"@;
    let certs = ssl + "/"@ + "certs"@;
    ends_otherwise(ssl);
    assert(certs.last() == 's');
    ends_otherwise(certs);
    if starts("certs"@, slash) {
        assert("certs"@.subrange(0, 1)[0] == '/');
    }
    if starts("ca.pem"@, slash) {
        assert("ca.pem"@.subrange(0, 1)[0] == '/');
    }
    assert("certs"@[0] == 'c' && "ca.pem"@[0] == 'c');
}

proof fn ends_otherwise(s: Seq<char>)
    requires
        s.len() > 0,
        s.last() != '/',
    ensures
        !ends(s, "/"@),
{
    reveal_strlit("/");
    if ends(s, "/"@) {
        assert(s.subrange(s.len() - 1, s.len() as int)[0] == '/');
    }
}

/// One section after the other is dealt with, and the settings are saved after each.
pub proof fn sections_are_saved_one_by_one<H: Host>(
    m: Agent<H>,
    at: Places,
    user: Seq<char>,
    name: Seq<char>,
    section: Val,
    rest: Seq<(Seq<char>, Val)>,
)
    ensures
        ({
            let (m1, done) = section_applied::<H>(m, at, user, name, section);
            let (m2, saved) = settings_saved::<H>(m1, at.conf_path);
            let r = sections_applied::<H>(m, at, user, seq![(name, section)] + rest);
            &&& done is Err ==> r.0 == m1 && r.1 is Err
            &&& done is Ok && saved is Err ==> r.0 == m2 && r.1 is Err
            &&& done is Ok && saved is Ok ==> r == sections_applied::<H>(m2, at, user, rest)
        }),
        sections_applied::<H>(m, at, user, Seq::empty()).0 == m,
{
    let all = seq![(name, section)] + rest;
    assert(all[0] == (name, section));
    assert(all.skip(1) =~= rest);
}

/// The settings are read from their file, without the space at the start of lines, before
/// any of them is changed.
pub proof fn settings_are_read_first<H: Host>(m: Agent<H>, at: Places, user: Seq<char>, conf: Seq<(Seq<char>, Val)>)
    ensures
        ({
            let load = Call::LoadFile(at.conf_path);
            let (w, a) = H::reply(m.world, load);
            let text = a->Read_0;
            let r = settings_changed::<H>(m, at, user, conf);
            let n = m.calls.len() as int;
            &&& text is Err ==> r.0.calls == m.calls.push(load) && r.1 is Err
            &&& text is Ok ==> {
                let read = Call::ReadConfig { text: cleaned(text->Ok_0), name: at.conf_path };
                let (w2, b) = H::reply(w, read);
                let m2 = Agent::<H> { calls: m.calls.push(load).push(read), world: w2 };
                &&& b->Done_0 is Err ==> r.0 == m2 && r.1 is Err
                &&& b->Done_0 is Ok ==> r == sections_applied::<H>(m2, at, user, conf)
            }
        }),
{
}

} // verus!
