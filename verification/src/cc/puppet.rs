//! Setting up puppet: installing it, changing its settings, and running it.

use vstd::prelude::*;

use crate::case::{lowercase, to_lower};
use crate::cc::puppet::host::{
    ask_chownbyname, ask_config_text, ask_dump_yaml, ask_ensure_dir, ask_getfqdn, ask_install_packages,
    ask_instance_id, ask_load_text_file, ask_manage_service, ask_read_config, ask_readurl, ask_rename, ask_set_config,
    ask_subp, ask_tempdir, ask_write_file, log_debug, log_warn, logged, warned, Agent,
};
use crate::cc::{cmd_text, text_result, unit_result};
use crate::paths::{path_join, path_joined};
use crate::show::{cfg_str, get_bool, kind_name, kind_text, py_str, show, shown_at, shown_list, shows, switch};
use crate::space::{Class, is_line, lines_are_lines, text_lines, text_lines_of, trim_end, trim_end_of, trim_start, trim_start_of, within, words, words_of};
use crate::text::{
    append_texts, argv1, argv2, argv4, cat2, cat3, cat4, join, join_with, opt_text, replace, replaced, same, texts,
};
use crate::value::{get, vals, Node, Object, Val};

pub mod host;
pub mod laws;

pub use crate::cc::puppet::host::{Fixture, Host};

verus! {

/// Where the installer of everything at once is found.
pub const AIO_INSTALL_URL: &'static str = "https://raw.githubusercontent.com/puppetlabs/install-puppet/main/install.sh";

/// The paths that puppet uses.
#[derive(Debug, Clone, PartialEq, Eq)]
pub struct Constants {
    pub conf_path: String,
    pub ssl_dir: String,
    pub ssl_cert_dir: String,
    pub ssl_cert_path: String,
    pub csr_attributes_path: String,
}

pub struct Places {
    pub conf_path: Seq<char>,
    pub ssl_dir: Seq<char>,
    pub ssl_cert_dir: Seq<char>,
    pub ssl_cert_path: Seq<char>,
    pub csr_attributes_path: Seq<char>,
}

impl View for Constants {
    type V = Places;

    open spec fn view(&self) -> Places {
        Places {
            conf_path: self.conf_path@,
            ssl_dir: self.ssl_dir@,
            ssl_cert_dir: self.ssl_cert_dir@,
            ssl_cert_path: self.ssl_cert_path@,
            csr_attributes_path: self.csr_attributes_path@,
        }
    }
}

/// The paths that follow from three of them.
pub open spec fn places(conf_path: Seq<char>, ssl_dir: Seq<char>, csr_attributes_path: Seq<char>) -> Places {
    let certs = path_joined(ssl_dir, "certs"@);
    Places {
        conf_path,
        ssl_dir,
        ssl_cert_dir: certs,
        ssl_cert_path: path_joined(certs, "ca.pem"@),
        csr_attributes_path,
    }
}

impl Constants {
    pub fn new(conf_path: &str, ssl_dir: &str, csr_attributes_path: &str) -> (r: Self)
        ensures
            r@ == places(conf_path@, ssl_dir@, csr_attributes_path@),
    {
        let certs = path_join(ssl_dir, "certs");
        Constants {
            conf_path: conf_path.to_owned(),
            ssl_dir: ssl_dir.to_owned(),
            ssl_cert_path: path_join(certs.as_str(), "ca.pem"),
            ssl_cert_dir: certs,
            csr_attributes_path: csr_attributes_path.to_owned(),
        }
    }
}

// ---------------------------------------------------------------------------
// Services

/// Does something to the first of the two services with which that can be done. That
/// it can be done with neither is warned of.
pub open spec fn services_managed<H: Host>(m: Agent<H>, action: Seq<char>) -> Agent<H> {
    let (m1, done) = ask_manage_service::<H>(m, action, "puppet-agent.service"@);
    if done is Ok {
        m1
    } else {
        let (m2, done) = ask_manage_service::<H>(m1, action, "puppet.service"@);
        if done is Ok {
            m2
        } else {
            warned::<H>(m2, unmanaged_text(action))
        }
    }
}

/// What is said where something can be done to neither of the services.
pub open spec fn unmanaged_text(action: Seq<char>) -> Seq<char> {
    "Could not '"@ + action + "' any of the following services: puppet-agent, puppet"@
}

fn manage_puppet_services<H: Host>(host: &mut H, action: &str)
    ensures
        final(host).machine() == services_managed::<H>(old(host).machine(), action@),
{
    let done = host.manage_service(action, "puppet-agent.service");
    if done.is_err() {
        let done = host.manage_service(action, "puppet.service");
        if done.is_err() {
            log_warn(
                host,
                cat3("Could not '", action, "' any of the following services: puppet-agent, puppet").as_str(),
            );
        }
    }
}

// ---------------------------------------------------------------------------
// Installing

/// What is asked to be installed: a package, with its version where one is given.
pub open spec fn package_list(name: Seq<char>, version: Option<Seq<char>>) -> Val {
    match version {
        Some(v) => if v.len() > 0 {
            Val::Array(seq![Val::Array(seq![Val::Text(name), Val::Text(v)])])
        } else {
            Val::Array(seq![Val::Text(name)])
        },
        None => Val::Array(seq![Val::Text(name)]),
    }
}

fn to_install(name: &str, version: &Option<String>) -> (r: Node)
    ensures
        r@ == package_list(name@, opt_text(*version)),
{
    let mut items: Vec<Node> = Vec::new();
    if let Some(v) = version {
        if !v.as_str().is_empty() {
            let mut pair: Vec<Node> = Vec::new();
            pair.push(Node::text(name));
            pair.push(Node::text(v.as_str()));
            assert(vals(pair@) =~= seq![Val::Text(name@), Val::Text(v@)]);
            items.push(Node::Array(pair));
            assert(vals(items@) =~= seq![Val::Array(seq![Val::Text(name@), Val::Text(v@)])]);
            return Node::Array(items);
        }
    }
    items.push(Node::text(name));
    assert(vals(items@) =~= seq![Val::Text(name@)]);
    Node::Array(items)
}

/// Installs a package: the one that is named, or the first of two that can be. That
/// neither of the two can be is only warned of.
pub open spec fn package_installed<H: Host>(m: Agent<H>, package: Option<Seq<char>>, version: Option<Seq<char>>) -> (
    Agent<H>,
    Result<(), Seq<char>>,
) {
    match package {
        Some(name) => ask_install_packages::<H>(m, package_list(name, version)),
        None => {
            let (m1, done) = ask_install_packages::<H>(m, package_list("puppet-agent"@, version));
            (
                if done is Ok {
                    m1
                } else {
                    let (m2, done) = ask_install_packages::<H>(m1, package_list("puppet"@, version));
                    if done is Ok {
                        m2
                    } else {
                        warned::<H>(m2, "No installable puppet package in any of: puppet-agent, puppet"@)
                    }
                },
                Ok(()),
            )
        },
    }
}

fn install_package<H: Host>(package: &Option<String>, version: &Option<String>, host: &mut H) -> (r: Result<(), String>)
    ensures
        (final(host).machine(), unit_result(r)) == package_installed::<H>(
            old(host).machine(),
            opt_text(*package),
            opt_text(*version),
        ),
{
    match package {
        Some(name) => host.install_packages(&to_install(name.as_str(), version)),
        None => {
            let done = host.install_packages(&to_install("puppet-agent", version));
            if done.is_err() {
                let done = host.install_packages(&to_install("puppet", version));
                if done.is_err() {
                    log_warn(host, "No installable puppet package in any of: puppet-agent, puppet");
                }
            }
            Ok(())
        },
    }
}

/// An option and its value, where there is one.
pub open spec fn flag_words(flag: Seq<char>, value: Option<Seq<char>>) -> Seq<Seq<char>> {
    match value {
        Some(v) => seq![flag, v],
        None => Seq::empty(),
    }
}

/// The options of the installer of everything at once.
pub open spec fn aio_words(version: Option<Seq<char>>, collection: Option<Seq<char>>, cleanup: bool) -> Seq<Seq<char>> {
    flag_words("-v"@, version) + flag_words("-c"@, collection) + if cleanup {
        seq!["--cleanup"@]
    } else {
        Seq::empty()
    }
}

/// Fetches the installer of everything at once, and runs it.
pub open spec fn aio_installed<H: Host>(
    m: Agent<H>,
    url: Seq<char>,
    version: Option<Seq<char>>,
    collection: Option<Seq<char>>,
    cleanup: bool,
) -> (Agent<H>, Result<(), Seq<char>>) {
    let (m1, content) = ask_readurl::<H>(m, url);
    match content {
        Err(e) => (m1, Err(e)),
        Ok(content) => {
            let (m2, dir) = ask_tempdir::<H>(m1);
            match dir {
                Err(e) => (m2, Err(e)),
                Ok(dir) => {
                    let script = path_joined(dir, "puppet-install"@);
                    let (m3, wrote) = ask_write_file::<H>(m2, script, content, Some(0o700u32));
                    match wrote {
                        Err(e) => (m3, Err(e)),
                        Ok(()) => {
                            let (m4, ran) = ask_subp::<H>(
                                m3,
                                seq![script] + aio_words(version, collection, cleanup),
                                false,
                            );
                            (
                                m4,
                                match ran {
                                    Ok(_) => Ok(()),
                                    Err(e) => Err(cmd_text(e)),
                                },
                            )
                        },
                    }
                },
            }
        },
    }
}

fn aio_args(version: &Option<String>, collection: &Option<String>, cleanup: bool) -> (r: Vec<String>)
    ensures
        texts(r@) == aio_words(opt_text(*version), opt_text(*collection), cleanup),
{
    let mut args: Vec<String> = Vec::new();
    let ghost first = flag_words("-v"@, opt_text(*version));
    let ghost second = flag_words("-c"@, opt_text(*collection));
    if let Some(v) = version {
        append_texts(&mut args, &argv2("-v", v.as_str()));
    }
    assert(texts(args@) =~= first);
    if let Some(c) = collection {
        append_texts(&mut args, &argv2("-c", c.as_str()));
    }
    assert(texts(args@) =~= first + second);
    if cleanup {
        append_texts(&mut args, &argv1("--cleanup"));
    }
    assert(texts(args@) =~= aio_words(opt_text(*version), opt_text(*collection), cleanup));
    args
}

fn install_puppet_aio<H: Host>(
    host: &mut H,
    url: &str,
    version: &Option<String>,
    collection: &Option<String>,
    cleanup: bool,
) -> (r: Result<(), String>)
    ensures
        (final(host).machine(), unit_result(r)) == aio_installed::<H>(
            old(host).machine(),
            url@,
            opt_text(*version),
            opt_text(*collection),
            cleanup,
        ),
{
    let content = match host.readurl(url) {
        Ok(content) => content,
        Err(e) => return Err(e),
    };
    let dir = match host.tempdir() {
        Ok(dir) => dir,
        Err(e) => return Err(e),
    };
    let script = path_join(dir.as_str(), "puppet-install");
    match host.write_file(script.as_str(), content.as_str(), Some(0o700)) {
        Ok(()) => {},
        Err(e) => return Err(e),
    }
    let mut command = argv1(script.as_str());
    append_texts(&mut command, &aio_args(version, collection, cleanup));
    match host.subp(&command, false) {
        Ok(_) => Ok(()),
        Err(e) => Err(e.to_text()),
    }
}

/// How puppet is installed.
pub open spec fn install_kind(cfg: Seq<(Seq<char>, Val)>) -> Seq<char> {
    match shown_at(cfg, "install_type"@) {
        Some(s) => s,
        None => "packages"@,
    }
}

/// The program: one place for everything at once, and else where it is found.
pub open spec fn program(cfg: Seq<(Seq<char>, Val)>) -> Seq<char> {
    if install_kind(cfg) == "aio"@ {
        "/opt/puppetlabs/bin/puppet"@
    } else {
        "puppet"@
    }
}

/// The user that owns what puppet uses.
pub open spec fn owner(cfg: Seq<(Seq<char>, Val)>) -> Seq<char> {
    if install_kind(cfg) == "aio"@ {
        "root"@
    } else {
        "puppet"@
    }
}

/// A version with something in it.
pub open spec fn given(version: Option<Seq<char>>) -> Option<Seq<char>> {
    match version {
        Some(v) => if v.len() > 0 {
            Some(v)
        } else {
            None
        },
        None => None,
    }
}

/// What is said before puppet is installed.
pub open spec fn attempt_text(version: Option<Seq<char>>, kind: Seq<char>) -> Seq<char> {
    "Attempting to install puppet "@ + (match version {
        Some(v) => v,
        None => "latest"@,
    }) + " from "@ + kind
}

/// Installs puppet, where that is to be done; whether it may be run then.
pub open spec fn installed<H: Host>(m: Agent<H>, cfg: Seq<(Seq<char>, Val)>) -> (Agent<H>, Result<bool, Seq<char>>) {
    let kind = install_kind(cfg);
    let n = logged::<H>(m, attempt_text(given(shown_at(cfg, "version"@)), kind));
    if !switch(cfg, "install"@, true) {
        (
            if given(shown_at(cfg, "version"@)) is Some {
                warned::<H>(m, "Puppet install set to false but version supplied, doing nothing."@)
            } else {
                m
            },
            Ok(true),
        )
    } else if kind == "packages"@ {
        let (m1, done) = package_installed::<H>(n, shown_at(cfg, "package_name"@), shown_at(cfg, "version"@));
        (
            m1,
            match done {
                Ok(()) => Ok(true),
                Err(e) => Err(e),
            },
        )
    } else if kind == "aio"@ {
        let (m1, done) = aio_installed::<H>(
            n,
            match shown_at(cfg, "aio_install_url"@) {
                Some(url) => url,
                None => AIO_INSTALL_URL@,
            },
            shown_at(cfg, "version"@),
            shown_at(cfg, "collection"@),
            switch(cfg, "cleanup"@, true),
        );
        (
            m1,
            match done {
                Ok(()) => Ok(true),
                Err(e) => Err(e),
            },
        )
    } else {
        (warned::<H>(n, "Unknown puppet install type '"@ + kind + "'"@), Ok(false))
    }
}

pub open spec fn flag_result(r: Result<bool, String>) -> Result<bool, Seq<char>> {
    match r {
        Ok(b) => Ok(b),
        Err(e) => Err(e@),
    }
}

fn install<H: Host>(cfg: &Object, kind: &str, host: &mut H) -> (r: Result<bool, String>)
    requires
        kind@ == install_kind(cfg@),
    ensures
        (final(host).machine(), flag_result(r)) == installed::<H>(old(host).machine(), cfg@),
{
    proof {
        reveal_strlit("packages");
        reveal_strlit("aio");
        assert("packages"@.len() != "aio"@.len());
    }
    let version = cfg_str(cfg, "version");
    let shown = match &version {
        Some(v) => if v.as_str().is_empty() {
            None
        } else {
            Some(v.as_str())
        },
        None => None,
    };
    if !get_bool(cfg, "install", true) {
        if shown.is_some() {
            log_warn(host, "Puppet install set to false but version supplied, doing nothing.");
        }
        return Ok(true);
    }
    let shown = match shown {
        Some(v) => v,
        None => "latest",
    };
    log_debug(host, cat4("Attempting to install puppet ", shown, " from ", kind).as_str());
    let done = if same(kind, "packages") {
        install_package(&cfg_str(cfg, "package_name"), &version, host)
    } else if same(kind, "aio") {
        let url = match cfg_str(cfg, "aio_install_url") {
            Some(url) => url,
            None => AIO_INSTALL_URL.to_owned(),
        };
        install_puppet_aio(host, url.as_str(), &version, &cfg_str(cfg, "collection"), get_bool(cfg, "cleanup", true))
    } else {
        log_warn(host, cat3("Unknown puppet install type '", kind, "'").as_str());
        return Ok(false);
    };
    match done {
        Ok(()) => Ok(true),
        Err(e) => Err(e),
    }
}

// ---------------------------------------------------------------------------
// Paths

/// What puppet says a setting of its own is.
pub open spec fn printed_setting<H: Host>(m: Agent<H>, program: Seq<char>, setting: Seq<char>) -> (
    Agent<H>,
    Result<Seq<char>, Seq<char>>,
) {
    let (m1, out) = ask_subp::<H>(m, seq![program, "config"@, "print"@, setting], true);
    (
        m1,
        match out {
            Ok(out) => Ok(trim_end(Class::Space, out)),
            Err(e) => Err(cmd_text(e)),
        },
    )
}

fn get_config_value<H: Host>(host: &mut H, program: &str, setting: &str) -> (r: Result<String, String>)
    ensures
        (final(host).machine(), text_result(r)) == printed_setting::<H>(old(host).machine(), program@, setting@),
{
    match host.subp(&argv4(program, "config", "print", setting), true) {
        Ok(out) => Ok(trim_end_of(Class::Space, out.as_str())),
        Err(e) => Err(e.to_text()),
    }
}

/// What is configured, and else what there is.
pub open spec fn configured_or(cfg: Seq<(Seq<char>, Val)>, key: Seq<char>, other: Seq<char>) -> Seq<char> {
    match shown_at(cfg, key) {
        Some(s) => s,
        None => other,
    }
}

/// The paths that are used. Puppet is asked for all three, configured or not.
pub open spec fn places_found<H: Host>(m: Agent<H>, cfg: Seq<(Seq<char>, Val)>) -> (Agent<H>, Result<Places, Seq<char>>) {
    let (m1, conf) = printed_setting::<H>(m, program(cfg), "config"@);
    match conf {
        Err(e) => (m1, Err(e)),
        Ok(conf) => {
            let (m2, ssl) = printed_setting::<H>(m1, program(cfg), "ssldir"@);
            match ssl {
                Err(e) => (m2, Err(e)),
                Ok(ssl) => {
                    let (m3, csr) = printed_setting::<H>(m2, program(cfg), "csr_attributes"@);
                    (
                        m3,
                        match csr {
                            Err(e) => Err(e),
                            Ok(csr) => Ok(
                                places(
                                    configured_or(cfg, "conf_file"@, conf),
                                    configured_or(cfg, "ssl_dir"@, ssl),
                                    configured_or(cfg, "csr_attributes_path"@, csr),
                                ),
                            ),
                        },
                    )
                },
            }
        },
    }
}

pub open spec fn places_result(r: Result<Constants, String>) -> Result<Places, Seq<char>> {
    match r {
        Ok(c) => Ok(c@),
        Err(e) => Err(e@),
    }
}

fn choose_path(cfg: &Object, key: &str, other: String) -> (r: String)
    ensures
        r@ == configured_or(cfg@, key@, other@),
{
    match cfg_str(cfg, key) {
        Some(s) => s,
        None => other,
    }
}

fn find_places<H: Host>(cfg: &Object, puppet: &str, host: &mut H) -> (r: Result<Constants, String>)
    requires
        puppet@ == program(cfg@),
    ensures
        (final(host).machine(), places_result(r)) == places_found::<H>(old(host).machine(), cfg@),
{
    let conf = match get_config_value(host, puppet, "config") {
        Ok(s) => s,
        Err(e) => return Err(e),
    };
    let ssl = match get_config_value(host, puppet, "ssldir") {
        Ok(s) => s,
        Err(e) => return Err(e),
    };
    let csr = match get_config_value(host, puppet, "csr_attributes") {
        Ok(s) => s,
        Err(e) => return Err(e),
    };
    Ok(
        Constants::new(
            choose_path(cfg, "conf_file", conf).as_str(),
            choose_path(cfg, "ssl_dir", ssl).as_str(),
            choose_path(cfg, "csr_attributes_path", csr).as_str(),
        ),
    )
}

// ---------------------------------------------------------------------------
// Settings

/// A text with white space taken from the start of every line.
pub open spec fn cleaned(text: Seq<char>) -> Seq<char> {
    let lines = text_lines(text);
    join(Seq::new(lines.len(), |i: int| trim_start(Class::Space, lines[i])), "\n"@)
}

pub fn clean(text: &str) -> (r: String)
    ensures
        r@ == cleaned(text@),
{
    let lines = text_lines_of(text);
    let ghost all = texts(lines@);
    let ghost want = Seq::new(all.len(), |i: int| trim_start(Class::Space, all[i]));
    let mut out: Vec<String> = Vec::new();
    let mut i: usize = 0;
    assert(texts(out@) =~= want.take(0));
    while i < lines.len()
        invariant
            i <= lines@.len(),
            all == texts(lines@),
            want == Seq::new(all.len(), |i: int| trim_start(Class::Space, all[i])),
            texts(out@) == want.take(i as int),
        decreases lines.len() - i,
    {
        assert(all[i as int] == lines@[i as int]@);
        let ghost before = texts(out@);
        out.push(trim_start_of(Class::Space, lines[i].as_str()));
        assert(texts(out@) =~= before.push(want[i as int]));
        i += 1;
        assert(want.take(i as int) =~= want.take(i - 1).push(want[i - 1]));
    }
    assert(want.take(i as int) =~= want);
    join_with(&out, "\n")
}

/// Puts the certificate of an authority in its place.
pub open spec fn certificate_placed<H: Host>(m: Agent<H>, at: Places, user: Seq<char>, cert: Seq<char>) -> (
    Agent<H>,
    Result<(), Seq<char>>,
) {
    let (m1, r1) = ask_ensure_dir::<H>(m, at.ssl_dir, Some(0o771u32));
    if r1 is Err {
        (m1, r1)
    } else {
        let (m2, r2) = ask_chownbyname::<H>(m1, at.ssl_dir, user, "root"@);
        if r2 is Err {
            (m2, r2)
        } else {
            let (m3, r3) = ask_ensure_dir::<H>(m2, at.ssl_cert_dir, None);
            if r3 is Err {
                (m3, r3)
            } else {
                let (m4, r4) = ask_chownbyname::<H>(m3, at.ssl_cert_dir, user, "root"@);
                if r4 is Err {
                    (m4, r4)
                } else {
                    let (m5, r5) = ask_write_file::<H>(m4, at.ssl_cert_path, cert, None);
                    if r5 is Err {
                        (m5, r5)
                    } else {
                        ask_chownbyname::<H>(m5, at.ssl_cert_path, user, "root"@)
                    }
                }
            }
        }
    }
}

fn place_certificate<H: Host>(at: &Constants, user: &str, cert: &str, host: &mut H) -> (r: Result<(), String>)
    ensures
        (final(host).machine(), unit_result(r)) == certificate_placed::<H>(old(host).machine(), at@, user@, cert@),
{
    match host.ensure_dir(at.ssl_dir.as_str(), Some(0o771)) {
        Ok(()) => {},
        Err(e) => return Err(e),
    }
    match host.chownbyname(at.ssl_dir.as_str(), user, "root") {
        Ok(()) => {},
        Err(e) => return Err(e),
    }
    match host.ensure_dir(at.ssl_cert_dir.as_str(), None) {
        Ok(()) => {},
        Err(e) => return Err(e),
    }
    match host.chownbyname(at.ssl_cert_dir.as_str(), user, "root") {
        Ok(()) => {},
        Err(e) => return Err(e),
    }
    match host.write_file(at.ssl_cert_path.as_str(), cert, None) {
        Ok(()) => {},
        Err(e) => return Err(e),
    }
    host.chownbyname(at.ssl_cert_path.as_str(), user, "root")
}

/// The name in a certificate: the machine's full name and the instance's name are
/// put in, and the whole is in lower case.
pub open spec fn certificate_name(text: Seq<char>, fqdn: Seq<char>, iid: Seq<char>) -> Seq<char> {
    lowercase(replaced(replaced(text, "%f"@, fqdn), "%i"@, iid))
}

/// Sets the options of a section, one after the other.
pub open spec fn options_set<H: Host>(m: Agent<H>, section: Seq<char>, options: Seq<(Seq<char>, Val)>) -> (
    Agent<H>,
    Result<(), Seq<char>>,
)
    decreases options.len(),
{
    if options.len() == 0 {
        (m, Ok(()))
    } else {
        let (option, value) = options[0];
        let (m1, text) = if option == "certname"@ {
            let (n1, fqdn) = ask_getfqdn::<H>(m);
            let (n2, iid) = ask_instance_id::<H>(n1);
            (n2, certificate_name(show(value), fqdn, iid))
        } else {
            (m, show(value))
        };
        let (m2, done) = ask_set_config::<H>(m1, section, option, text);
        match done {
            Err(e) => (m2, Err(e)),
            Ok(()) => options_set::<H>(m2, section, options.skip(1)),
        }
    }
}

fn set_options<H: Host>(section: &str, options: &Object, host: &mut H) -> (r: Result<(), String>)
    ensures
        (final(host).machine(), unit_result(r)) == options_set::<H>(old(host).machine(), section@, options@),
{
    proof {
        reveal_strlit("%f");
        reveal_strlit("%i");
    }
    let ghost all = options@;
    let mut i: usize = 0;
    assert(all.skip(0) =~= all);
    while i < options.len()
        invariant
            i <= options@.len(),
            all == options@,
            "%f"@.len() == 2,
            "%i"@.len() == 2,
            options_set::<H>(host.machine(), section@, all.skip(i as int)) == options_set::<H>(
                old(host).machine(),
                section@,
                all,
            ),
        decreases options@.len() - i,
    {
        assert(all.skip(i as int)[0] == all[i as int]);
        assert(all.skip(i as int).skip(1) =~= all.skip(i + 1));
        let option = options.key_at(i);
        let mut text = py_str(options.value_at(i));
        if same(option.as_str(), "certname") {
            let fqdn = host.getfqdn();
            let iid = host.instance_id();
            text = to_lower(replace(replace(text.as_str(), "%f", fqdn.as_str()).as_str(), "%i", iid.as_str()).as_str());
        }
        match host.set_config(section, option.as_str(), text.as_str()) {
            Ok(()) => {},
            Err(e) => return Err(e),
        }
        i += 1;
    }
    Ok(())
}

/// Does what one section says.
pub open spec fn section_applied<H: Host>(m: Agent<H>, at: Places, user: Seq<char>, name: Seq<char>, section: Val) -> (
    Agent<H>,
    Result<(), Seq<char>>,
) {
    if name == "ca_cert"@ {
        certificate_placed::<H>(m, at, user, show(section))
    } else {
        match section {
            Val::Object(options) => options_set::<H>(m, name, options),
            _ => (m, Err("'"@ + kind_text(section) + "' object has no attribute 'items'"@)),
        }
    }
}

/// Puts the settings file aside, and writes the settings in its place.
pub open spec fn settings_saved<H: Host>(m: Agent<H>, path: Seq<char>) -> (Agent<H>, Result<(), Seq<char>>) {
    let (m1, moved) = ask_rename::<H>(m, path, path + ".old"@);
    if moved is Err {
        (m1, moved)
    } else {
        let (m2, text) = ask_config_text::<H>(m1);
        ask_write_file::<H>(m2, path, text, None)
    }
}

/// Does what the sections say. The file is put aside and written anew after each.
pub open spec fn sections_applied<H: Host>(m: Agent<H>, at: Places, user: Seq<char>, conf: Seq<(Seq<char>, Val)>) -> (
    Agent<H>,
    Result<(), Seq<char>>,
)
    decreases conf.len(),
{
    if conf.len() == 0 {
        (m, Ok(()))
    } else {
        let (m1, done) = section_applied::<H>(m, at, user, conf[0].0, conf[0].1);
        if done is Err {
            (m1, done)
        } else {
            let (m2, saved) = settings_saved::<H>(m1, at.conf_path);
            if saved is Err {
                (m2, saved)
            } else {
                sections_applied::<H>(m2, at, user, conf.skip(1))
            }
        }
    }
}

/// Changes the settings file.
pub open spec fn settings_changed<H: Host>(m: Agent<H>, at: Places, user: Seq<char>, conf: Seq<(Seq<char>, Val)>) -> (
    Agent<H>,
    Result<(), Seq<char>>,
) {
    let (m1, contents) = ask_load_text_file::<H>(m, at.conf_path);
    match contents {
        Err(e) => (m1, Err(e)),
        Ok(contents) => {
            let (m2, read) = ask_read_config::<H>(m1, cleaned(contents), at.conf_path);
            if read is Err {
                (m2, read)
            } else {
                sections_applied::<H>(m2, at, user, conf)
            }
        },
    }
}

fn save_settings<H: Host>(path: &str, host: &mut H) -> (r: Result<(), String>)
    ensures
        (final(host).machine(), unit_result(r)) == settings_saved::<H>(old(host).machine(), path@),
{
    match host.rename(path, cat2(path, ".old").as_str()) {
        Ok(()) => {},
        Err(e) => return Err(e),
    }
    let text = host.config_text();
    host.write_file(path, text.as_str(), None)
}

fn apply_section<H: Host>(at: &Constants, user: &str, name: &str, section: &Node, host: &mut H) -> (r: Result<(), String>)
    ensures
        (final(host).machine(), unit_result(r)) == section_applied::<H>(
            old(host).machine(),
            at@,
            user@,
            name@,
            section@,
        ),
{
    if same(name, "ca_cert") {
        return place_certificate(at, user, py_str(section).as_str(), host);
    }
    match section {
        Node::Object(options) => set_options(name, options, host),
        other => Err(cat3("'", kind_name(other).as_str(), "' object has no attribute 'items'")),
    }
}

fn change_settings<H: Host>(at: &Constants, user: &str, conf: &Object, host: &mut H) -> (r: Result<(), String>)
    ensures
        (final(host).machine(), unit_result(r)) == settings_changed::<H>(old(host).machine(), at@, user@, conf@),
{
    let contents = match host.load_text_file(at.conf_path.as_str()) {
        Ok(contents) => contents,
        Err(e) => return Err(e),
    };
    match host.read_config(clean(contents.as_str()).as_str(), at.conf_path.as_str()) {
        Ok(()) => {},
        Err(e) => return Err(e),
    }
    let ghost m = host.machine();
    let ghost all = conf@;
    let mut i: usize = 0;
    assert(all.skip(0) =~= all);
    while i < conf.len()
        invariant
            i <= conf@.len(),
            all == conf@,
            sections_applied::<H>(m, at@, user@, all) == settings_changed::<H>(old(host).machine(), at@, user@, conf@),
            sections_applied::<H>(host.machine(), at@, user@, all.skip(i as int)) == sections_applied::<H>(
                m,
                at@,
                user@,
                all,
            ),
        decreases conf@.len() - i,
    {
        assert(all.skip(i as int)[0] == all[i as int]);
        assert(all.skip(i as int).skip(1) =~= all.skip(i + 1));
        match apply_section(at, user, conf.key_at(i).as_str(), conf.value_at(i), host) {
            Ok(()) => {},
            Err(e) => return Err(e),
        }
        match save_settings(at.conf_path.as_str(), host) {
            Ok(()) => {},
            Err(e) => return Err(e),
        }
        i += 1;
    }
    Ok(())
}

// ---------------------------------------------------------------------------
// The module

/// The words that run the agent.
pub open spec fn agent_words(cfg: Seq<(Seq<char>, Val)>) -> Seq<Seq<char>> {
    seq![program(cfg), "agent"@] + match get(cfg, "exec_args"@) {
        Some(Val::Array(items)) => shows(items),
        Some(Val::Text(s)) => words(Class::Space, s),
        _ => seq!["--test"@],
    }
}

fn agent_argv(cfg: &Object, puppet: &str) -> (r: Vec<String>)
    requires
        puppet@ == program(cfg@),
    ensures
        texts(r@) == agent_words(cfg@),
{
    let mut argv = argv2(puppet, "agent");
    let args = match cfg.get("exec_args") {
        Some(Node::Array(items)) => shown_list(items),
        Some(Node::Text(s)) => words_of(Class::Space, s.as_str()),
        _ => argv1("--test"),
    };
    append_texts(&mut argv, &args);
    argv
}

/// Changes the settings and writes the attributes of requests, where the
/// configuration has any.
pub open spec fn files_changed<H: Host>(m: Agent<H>, at: Places, cfg: Seq<(Seq<char>, Val)>) -> (
    Agent<H>,
    Result<(), Seq<char>>,
) {
    let (m1, changed) = match get(cfg, "conf"@) {
        Some(Val::Object(conf)) => settings_changed::<H>(m, at, owner(cfg), conf),
        _ => (m, Ok(())),
    };
    if changed is Err {
        (m1, changed)
    } else {
        match get(cfg, "csr_attributes"@) {
            Some(csr) => {
                let (m2, text) = ask_dump_yaml::<H>(m1, csr);
                ask_write_file::<H>(m2, at.csr_attributes_path, text, None)
            },
            None => (m1, Ok(())),
        }
    }
}

/// Says that the agent is run, and warns of arguments for it that cannot be used.
pub open spec fn run_told<H: Host>(m: Agent<H>, cfg: Seq<(Seq<char>, Val)>) -> Agent<H> {
    let n = logged::<H>(m, "Running puppet-agent"@);
    match get(cfg, "exec_args"@) {
        None => n,
        Some(Val::Array(_)) => n,
        Some(Val::Text(_)) => n,
        Some(other) => warned::<H>(
            n,
            "Unknown type <class '"@ + kind_text(other)
                + "'> provided for puppet 'exec_args' expected list, tuple, or string"@,
        ),
    }
}

fn tell_run<H: Host>(cfg: &Object, host: &mut H)
    ensures
        final(host).machine() == run_told::<H>(old(host).machine(), cfg@),
{
    log_debug(host, "Running puppet-agent");
    match cfg.get("exec_args") {
        None => {},
        Some(Node::Array(_)) => {},
        Some(Node::Text(_)) => {},
        Some(other) => {
            log_warn(
                host,
                cat3(
                    "Unknown type <class '",
                    kind_name(other).as_str(),
                    "'> provided for puppet 'exec_args' expected list, tuple, or string",
                ).as_str(),
            );
        },
    }
}

/// Enables the service, runs the agent and starts the service, as far as each of
/// that is to be done.
pub open spec fn agent_run<H: Host>(m: Agent<H>, cfg: Seq<(Seq<char>, Val)>, may_run: bool) -> (
    Agent<H>,
    Result<(), Seq<char>>,
) {
    let service = switch(cfg, "start_service"@, true);
    let m1 = if service {
        services_managed::<H>(m, "enable"@)
    } else {
        m
    };
    let (m2, ran) = if switch(cfg, "exec"@, false) && may_run {
        let (n, out) = ask_subp::<H>(run_told::<H>(m1, cfg), agent_words(cfg), false);
        (
            n,
            match out {
                Ok(_) => Ok(()),
                Err(e) => Err(cmd_text(e)),
            },
        )
    } else {
        (m1, Ok(()))
    };
    if ran is Err {
        (m2, ran)
    } else if service {
        (services_managed::<H>(m2, "start"@), Ok(()))
    } else {
        (m2, Ok(()))
    }
}

/// Sets up puppet with a configuration that is a mapping.
pub open spec fn set_up_block<H: Host>(m: Agent<H>, cfg: Seq<(Seq<char>, Val)>) -> (Agent<H>, Result<(), Seq<char>>) {
    let (m1, may_run) = installed::<H>(m, cfg);
    match may_run {
        Err(e) => (m1, Err(e)),
        Ok(may_run) => {
            let (m2, at) = places_found::<H>(m1, cfg);
            match at {
                Err(e) => (m2, Err(e)),
                Ok(at) => {
                    let (m3, changed) = files_changed::<H>(m2, at, cfg);
                    if changed is Err {
                        (m3, changed)
                    } else {
                        agent_run::<H>(m3, cfg, may_run)
                    }
                },
            }
        },
    }
}

/// What is said where there is no configuration.
pub open spec fn no_key_text(name: Seq<char>) -> Seq<char> {
    "Skipping module named "@ + name + ", no 'puppet' configuration found"@
}

/// Sets up puppet, where the configuration speaks of it.
pub open spec fn set_up<H: Host>(m: Agent<H>, name: Seq<char>, cfg: Seq<(Seq<char>, Val)>) -> (
    Agent<H>,
    Result<(), Seq<char>>,
) {
    match get(cfg, "puppet"@) {
        None => (logged::<H>(m, no_key_text(name)), Ok(())),
        Some(Val::Object(block)) => set_up_block::<H>(m, block),
        Some(other) => (m, Err("argument of type '"@ + kind_text(other) + "' is not a container or iterable"@)),
    }
}

fn change_files<H: Host>(at: &Constants, user: &str, cfg: &Object, host: &mut H) -> (r: Result<(), String>)
    requires
        user@ == owner(cfg@),
    ensures
        (final(host).machine(), unit_result(r)) == files_changed::<H>(old(host).machine(), at@, cfg@),
{
    if let Some(Node::Object(conf)) = cfg.get("conf") {
        match change_settings(at, user, conf, host) {
            Ok(()) => {},
            Err(e) => return Err(e),
        }
    }
    match cfg.get("csr_attributes") {
        Some(csr) => {
            let text = host.dump_yaml(csr);
            host.write_file(at.csr_attributes_path.as_str(), text.as_str(), None)
        },
        None => Ok(()),
    }
}

fn run_agent<H: Host>(cfg: &Object, puppet: &str, may_run: bool, host: &mut H) -> (r: Result<(), String>)
    requires
        puppet@ == program(cfg@),
    ensures
        (final(host).machine(), unit_result(r)) == agent_run::<H>(old(host).machine(), cfg@, may_run),
{
    let service = get_bool(cfg, "start_service", true);
    if service {
        manage_puppet_services(host, "enable");
    }
    if get_bool(cfg, "exec", false) && may_run {
        tell_run(cfg, host);
        match host.subp(&agent_argv(cfg, puppet), false) {
            Ok(_) => {},
            Err(e) => return Err(e.to_text()),
        }
    }
    if service {
        manage_puppet_services(host, "start");
    }
    Ok(())
}

/// Sets up puppet, where the configuration speaks of it.
pub fn handle_with<H: Host>(name: &str, cfg: &Object, host: &mut H) -> (r: Result<(), String>)
    ensures
        (final(host).machine(), unit_result(r)) == set_up::<H>(old(host).machine(), name@, cfg@),
{
    let block = match cfg.get("puppet") {
        None => {
            log_debug(host, cat3("Skipping module named ", name, ", no 'puppet' configuration found").as_str());
            return Ok(());
        },
        Some(Node::Object(block)) => block,
        Some(other) => return Err(
            cat3("argument of type '", kind_name(other).as_str(), "' is not a container or iterable"),
        ),
    };
    let kind = match cfg_str(block, "install_type") {
        Some(s) => s,
        None => "packages".to_owned(),
    };
    let aio = same(kind.as_str(), "aio");
    let puppet = if aio {
        "/opt/puppetlabs/bin/puppet"
    } else {
        "puppet"
    };
    let user = if aio {
        "root"
    } else {
        "puppet"
    };
    let may_run = match install(block, kind.as_str(), host) {
        Ok(b) => b,
        Err(e) => return Err(e),
    };
    let at = match find_places(block, puppet, host) {
        Ok(at) => at,
        Err(e) => return Err(e),
    };
    match change_files(&at, user, block, host) {
        Ok(()) => {},
        Err(e) => return Err(e),
    }
    run_agent(block, puppet, may_run, host)
}

// ---------------------------------------------------------------------------
// Laws

/// Without a configuration all that happens is a line in the log that says so.
pub proof fn no_configuration_asks_nothing<H: Host>(m: Agent<H>, name: Seq<char>, cfg: Seq<(Seq<char>, Val)>)
    requires
        get(cfg, "puppet"@) is None,
    ensures
        set_up::<H>(m, name, cfg) == (logged::<H>(m, no_key_text(name)), Ok::<(), Seq<char>>(())),
{
}

/// Where an unknown way to install is asked for, it is warned of and the agent is not
/// run: nothing is done at the end but to the services.
pub proof fn unknown_kind_runs_no_agent<H: Host>(m: Agent<H>, cfg: Seq<(Seq<char>, Val)>)
    requires
        switch(cfg, "install"@, true),
        install_kind(cfg) != "packages"@,
        install_kind(cfg) != "aio"@,
    ensures
        installed::<H>(m, cfg) == (
            warned::<H>(
                logged::<H>(m, attempt_text(given(shown_at(cfg, "version"@)), install_kind(cfg))),
                "Unknown puppet install type '"@ + install_kind(cfg) + "'"@,
            ),
            Ok::<bool, Seq<char>>(false),
        ),
        agent_run::<H>(m, cfg, false) == (
            if switch(cfg, "start_service"@, true) {
                services_managed::<H>(services_managed::<H>(m, "enable"@), "start"@)
            } else {
                m
            },
            Ok::<(), Seq<char>>(()),
        ),
{
}

/// Services never make the set-up fail: with nothing to run, what is done at the
/// end succeeds whatever the services answer.
pub proof fn services_never_fail<H: Host>(m: Agent<H>, cfg: Seq<(Seq<char>, Val)>, may_run: bool)
    requires
        !switch(cfg, "exec"@, false),
    ensures
        agent_run::<H>(m, cfg, may_run).1 == Ok::<(), Seq<char>>(()),
{
}

/// What white space is taken from the start of is a part of the text, and does not
/// start with white space.
proof fn trimmed_start(s: Seq<char>)
    ensures
        trim_start(Class::Space, s).len() > 0 ==> !within(Class::Space, trim_start(Class::Space, s)[0]),
        is_line(s) ==> is_line(trim_start(Class::Space, s)),
    decreases s.len(),
{
    if s.len() > 0 && within(Class::Space, s[0]) {
        if is_line(s) {
            assert forall|i: int| 0 <= i < s.skip(1).len() implies !within(Class::Break, #[trigger] s.skip(1)[i]) by {
                assert(s.skip(1)[i] == s[i + 1]);
            }
        }
        trimmed_start(s.skip(1));
    }
}

/// Whether a place in a text is the first of a line.
pub open spec fn starts_a_line(s: Seq<char>, i: int) -> bool {
    i == 0 || s[i - 1] == '\n'
}

proof fn joined_clean(lines: Seq<Seq<char>>)
    requires
        forall|k: int| 0 <= k < lines.len() ==> is_line(#[trigger] lines[k]),
        forall|k: int|
            0 <= k < lines.len() && lines[k].len() > 0 ==> !within(Class::Space, (#[trigger] lines[k])[0]),
    ensures
        forall|i: int|
            0 <= i < join(lines, "\n"@).len() && #[trigger] starts_a_line(join(lines, "\n"@), i) ==> join(
                lines,
                "\n"@,
            )[i] == '\n' || !within(Class::Space, join(lines, "\n"@)[i]),
    decreases lines.len(),
{
    reveal_strlit("\n");
    if lines.len() > 0 {
        let last = lines.last();
        assert(is_line(last));
        assert forall|i: int| 0 <= i < last.len() implies #[trigger] last[i] != '\n' by {
            assert(!within(Class::Break, last[i]));
        }
        if lines.len() > 1 {
            let front = lines.drop_last();
            assert forall|k: int| 0 <= k < front.len() implies is_line(#[trigger] front[k]) by {
                assert(front[k] == lines[k]);
            }
            assert forall|k: int| 0 <= k < front.len() && front[k].len() > 0 implies !within(
                Class::Space,
                (#[trigger] front[k])[0],
            ) by {
                assert(front[k] == lines[k]);
            }
            joined_clean(front);
            let head = join(front, "\n"@);
            let all = join(lines, "\n"@);
            assert(all == head + "\n"@ + last);
            assert forall|i: int| 0 <= i < all.len() && #[trigger] starts_a_line(all, i) implies all[i] == '\n' || !within(
                Class::Space,
                all[i],
            ) by {
                if i < head.len() {
                    assert(all[i] == head[i]);
                    assert(i > 0 ==> all[i - 1] == head[i - 1]);
                    assert(starts_a_line(head, i));
                } else if i > head.len() {
                    let k = i - head.len() - 1;
                    assert(all[i] == last[k]);
                    if k > 0 {
                        assert(all[i - 1] == last[k - 1]);
                    }
                }
            }
        }
    }
}

/// No line of a text that was cleaned starts with white space.
pub proof fn cleaned_lines_start_at_the_margin(text: Seq<char>, i: int)
    requires
        0 <= i < cleaned(text).len(),
        starts_a_line(cleaned(text), i),
    ensures
        cleaned(text)[i] == '\n' || !within(Class::Space, cleaned(text)[i]),
{
    let lines = text_lines(text);
    let trimmed = Seq::new(lines.len(), |k: int| trim_start(Class::Space, lines[k]));
    lines_are_lines(text);
    assert forall|k: int| 0 <= k < trimmed.len() implies is_line(#[trigger] trimmed[k]) && (trimmed[k].len() > 0
        ==> !within(Class::Space, trimmed[k][0])) by {
        assert(is_line(lines[k]));
        trimmed_start(lines[k]);
    }
    joined_clean(trimmed);
}

}
