//! Setting up mcollective.

use vstd::prelude::*;
use vstd::utf8::encode_utf8;

use crate::cc::mcollective::host::{
    ask_add_section, ask_copy, ask_has_section, ask_install_packages, ask_load_binary_file, ask_no_settings,
    ask_read_settings, ask_set_in_section, ask_set_text, ask_settings_file, ask_subp, ask_write_file, log_debug,
    logged, Call, Server, ENOENT,
};
use crate::cc::{cmd_text, option_in, sub_option, unit_result};
use crate::show::{kind_name, kind_text, py_str, show};
use crate::text::{argv3, cat2, cat3, same};
use crate::value::{get, vals, Node, Object, Val};

pub mod host;
pub mod laws;

pub use crate::cc::mcollective::host::{Fixture, Host, OsError};

verus! {

/// Where the server's public certificate is put.
pub const PUBCERT_FILE: &'static str = "/etc/mcollective/ssl/server-public.pem";

/// Where the server's private certificate is put.
pub const PRICERT_FILE: &'static str = "/etc/mcollective/ssl/server-private.pem";

/// The settings of the server.
pub const SERVER_CFG: &'static str = "/etc/mcollective/server.cfg";

/// The outcome of a step: the machine, and an error if there is one.
pub type Step<H> = (Server<H>, Result<(), Seq<char>>);

/// What is said where the server has no settings yet.
pub open spec fn no_file_text() -> Seq<char> {
    "Did not find file "@ + SERVER_CFG@ + " (starting with an empty config)"@
}

/// Takes up the settings of the server; none where there is no file.
pub open spec fn settings_taken<H: Host>(m: Server<H>) -> Step<H> {
    let (m1, old_contents) = ask_load_binary_file::<H>(m, SERVER_CFG@);
    match old_contents {
        Ok(bytes) => ask_read_settings::<H>(m1, bytes),
        Err(e) => if e.errno == ENOENT {
            (ask_no_settings::<H>(logged::<H>(m1, no_file_text())), Ok(()))
        } else {
            (m1, Err(e.display))
        },
    }
}

fn take_settings<H: Host>(host: &mut H) -> (r: Result<(), String>)
    ensures
        (final(host).machine(), unit_result(r)) == settings_taken::<H>(old(host).machine()),
{
    match host.load_binary_file(SERVER_CFG) {
        Ok(bytes) => host.read_settings(&bytes),
        Err(e) => {
            if e.errno == ENOENT {
                log_debug(host, cat3("Did not find file ", SERVER_CFG, " (starting with an empty config)").as_str());
                host.no_settings();
                return Ok(());
            }
            Err(e.display)
        },
    }
}

/// Writes a certificate, and sets where it is.
pub open spec fn certificate_set<H: Host>(m: Server<H>, v: Val, path: Seq<char>, mode: u32, key: Seq<char>) -> Step<H> {
    match v {
        Val::Text(text) => {
            let (m1, wrote) = ask_write_file::<H>(m, path, encode_utf8(text), mode);
            if wrote is Err {
                (m1, wrote)
            } else {
                let m2 = ask_set_text::<H>(m1, key, path);
                (ask_set_text::<H>(m2, "securityprovider"@, "ssl"@), Ok(()))
            }
        },
        _ => (m, Err("'"@ + kind_text(v) + "' object has no attribute 'encode'"@)),
    }
}

fn set_certificate<H: Host>(v: &Node, path: &str, mode: u32, key: &str, host: &mut H) -> (r: Result<(), String>)
    ensures
        (final(host).machine(), unit_result(r)) == certificate_set::<H>(
            old(host).machine(),
            v@,
            path@,
            mode,
            key@,
        ),
{
    match v {
        Node::Text(text) => {
            match host.write_file(path, &text.as_str().as_bytes_vec(), mode) {
                Ok(()) => {},
                Err(e) => return Err(e),
            }
            host.set_text(key, path);
            host.set_text("securityprovider", "ssl");
            Ok(())
        },
        other => Err(cat3("'", kind_name(other).as_str(), "' object has no attribute 'encode'")),
    }
}

/// Sets the options of a section, one after the other.
pub open spec fn options_set<H: Host>(m: Server<H>, name: Seq<char>, options: Seq<(Seq<char>, Val)>) -> Server<H>
    decreases options.len(),
{
    if options.len() == 0 {
        m
    } else {
        options_set::<H>(ask_set_in_section::<H>(m, name, options[0].0, options[0].1), name, options.skip(1))
    }
}

/// Sets the options of a section, which is added where it is not there.
pub open spec fn section_set<H: Host>(m: Server<H>, name: Seq<char>, options: Seq<(Seq<char>, Val)>) -> Server<H> {
    let (m1, there) = ask_has_section::<H>(m, name);
    options_set::<H>(
        if there {
            m1
        } else {
            ask_add_section::<H>(m1, name)
        },
        name,
        options,
    )
}

fn set_section<H: Host>(name: &str, options: &Object, host: &mut H)
    ensures
        final(host).machine() == section_set::<H>(old(host).machine(), name@, options@),
{
    if !host.has_section(name) {
        host.add_section(name);
    }
    let ghost m = host.machine();
    let ghost all = options@;
    let mut i: usize = 0;
    assert(all.skip(0) =~= all);
    while i < options.len()
        invariant
            i <= options@.len(),
            all == options@,
            options_set::<H>(host.machine(), name@, all.skip(i as int)) == options_set::<H>(m, name@, all),
        decreases options@.len() - i,
    {
        assert(all.skip(i as int)[0] == all[i as int]);
        assert(all.skip(i as int).skip(1) =~= all.skip(i + 1));
        host.set_in_section(name, options.key_at(i).as_str(), options.value_at(i));
        i += 1;
    }
}

/// Does what one entry says: a certificate, a text, a section, or anything else as
/// it is printed.
pub open spec fn entry_set<H: Host>(m: Server<H>, key: Seq<char>, v: Val) -> Step<H> {
    if key == "public-cert"@ {
        certificate_set::<H>(m, v, PUBCERT_FILE@, 0o644u32, "plugin.ssl_server_public"@)
    } else if key == "private-cert"@ {
        certificate_set::<H>(m, v, PRICERT_FILE@, 0o600u32, "plugin.ssl_server_private"@)
    } else {
        match v {
            Val::Object(options) => (section_set::<H>(m, key, options), Ok(())),
            _ => (ask_set_text::<H>(m, key, show(v)), Ok(())),
        }
    }
}

fn set_entry<H: Host>(key: &str, v: &Node, host: &mut H) -> (r: Result<(), String>)
    ensures
        (final(host).machine(), unit_result(r)) == entry_set::<H>(old(host).machine(), key@, v@),
{
    if same(key, "public-cert") {
        return set_certificate(v, PUBCERT_FILE, 0o644, "plugin.ssl_server_public", host);
    }
    if same(key, "private-cert") {
        return set_certificate(v, PRICERT_FILE, 0o600, "plugin.ssl_server_private", host);
    }
    match v {
        Node::Object(options) => set_section(key, options, host),
        other => host.set_text(key, py_str(other).as_str()),
    }
    Ok(())
}

/// Does what entries say, one after the other.
pub open spec fn entries_set<H: Host>(m: Server<H>, entries: Seq<(Seq<char>, Val)>) -> Step<H>
    decreases entries.len(),
{
    if entries.len() == 0 {
        (m, Ok(()))
    } else {
        let (m1, done) = entry_set::<H>(m, entries[0].0, entries[0].1);
        if done is Err {
            (m1, done)
        } else {
            entries_set::<H>(m1, entries.skip(1))
        }
    }
}

fn set_entries<H: Host>(entries: &Object, host: &mut H) -> (r: Result<(), String>)
    ensures
        (final(host).machine(), unit_result(r)) == entries_set::<H>(old(host).machine(), entries@),
{
    let ghost all = entries@;
    let mut i: usize = 0;
    assert(all.skip(0) =~= all);
    while i < entries.len()
        invariant
            i <= entries@.len(),
            all == entries@,
            entries_set::<H>(host.machine(), all.skip(i as int)) == entries_set::<H>(old(host).machine(), all),
        decreases entries@.len() - i,
    {
        assert(all.skip(i as int)[0] == all[i as int]);
        assert(all.skip(i as int).skip(1) =~= all.skip(i + 1));
        match set_entry(entries.key_at(i).as_str(), entries.value_at(i), host) {
            Ok(()) => {},
            Err(e) => return Err(e),
        }
        i += 1;
    }
    Ok(())
}

/// Copies the settings file aside, if there is one, and writes the settings.
pub open spec fn settings_saved<H: Host>(m: Server<H>) -> Step<H> {
    let (m1, copied) = ask_copy::<H>(m, SERVER_CFG@, SERVER_CFG@ + ".old"@);
    match copied {
        Err(e) => if e.errno == ENOENT {
            settings_written::<H>(m1)
        } else {
            (m1, Err(e.display))
        },
        Ok(()) => settings_written::<H>(m1),
    }
}

/// Writes the settings.
pub open spec fn settings_written<H: Host>(m: Server<H>) -> Step<H> {
    let (m1, contents) = ask_settings_file::<H>(m);
    match contents {
        Err(e) => (m1, Err(e)),
        Ok(contents) => ask_write_file::<H>(m1, SERVER_CFG@, contents, 0o644u32),
    }
}

fn save_settings<H: Host>(host: &mut H) -> (r: Result<(), String>)
    ensures
        (final(host).machine(), unit_result(r)) == settings_saved::<H>(old(host).machine()),
{
    match host.copy(SERVER_CFG, cat2(SERVER_CFG, ".old").as_str()) {
        Ok(()) => {},
        Err(e) => {
            if e.errno != ENOENT {
                return Err(e.display);
            }
        },
    }
    match host.settings_file() {
        Ok(contents) => host.write_file(SERVER_CFG, &contents, 0o644),
        Err(e) => Err(e),
    }
}

/// Folds a configuration into the settings of the server.
pub open spec fn configured<H: Host>(m: Server<H>, config: Val) -> Step<H> {
    let (m1, taken) = settings_taken::<H>(m);
    if taken is Err {
        (m1, taken)
    } else {
        match config {
            Val::Object(entries) => {
                let (m2, done) = entries_set::<H>(m1, entries);
                if done is Err {
                    (m2, done)
                } else {
                    settings_saved::<H>(m2)
                }
            },
            _ => (m1, Err("'"@ + kind_text(config) + "' object has no attribute 'items'"@)),
        }
    }
}

fn configure<H: Host>(config: &Node, host: &mut H) -> (r: Result<(), String>)
    ensures
        (final(host).machine(), unit_result(r)) == configured::<H>(old(host).machine(), config@),
{
    match take_settings(host) {
        Ok(()) => {},
        Err(e) => return Err(e),
    }
    let entries = match config {
        Node::Object(entries) => entries,
        other => return Err(cat3("'", kind_name(other).as_str(), "' object has no attribute 'items'")),
    };
    match set_entries(entries, host) {
        Ok(()) => {},
        Err(e) => return Err(e),
    }
    save_settings(host)
}

/// What is said where there is no configuration.
pub open spec fn no_key_text(name: Seq<char>) -> Seq<char> {
    "Skipping module named "@ + name + ", no 'mcollective' key in configuration"@
}

/// Installs mcollective, folds the configuration into its settings, and starts it
/// anew.
pub open spec fn set_up<H: Host>(m: Server<H>, name: Seq<char>, cfg: Seq<(Seq<char>, Val)>) -> Step<H> {
    match get(cfg, "mcollective"@) {
        None => (logged::<H>(m, no_key_text(name)), Ok(())),
        Some(block) => {
            let (m1, done) = ask_install_packages::<H>(m, Val::Array(seq![Val::Text("mcollective"@)]));
            if done is Err {
                (m1, done)
            } else {
                match option_in(block, "conf"@) {
                    Err(e) => (m1, Err(e)),
                    Ok(conf) => {
                        let (m2, folded) = match conf {
                            Some(conf) => configured::<H>(m1, conf),
                            None => (m1, Ok(())),
                        };
                        if folded is Err {
                            (m2, folded)
                        } else {
                            restarted::<H>(m2)
                        }
                    },
                }
            }
        },
    }
}

/// Starts the server anew.
pub open spec fn restarted<H: Host>(m: Server<H>) -> Step<H> {
    let (m1, ran) = ask_subp::<H>(m, seq!["service"@, "mcollective"@, "restart"@]);
    (
        m1,
        match ran {
            Ok(()) => Ok(()),
            Err(e) => Err(cmd_text(e)),
        },
    )
}

/// Installs mcollective, folds the configuration into its settings, and starts it
/// anew, where the configuration speaks of it.
pub fn handle_with<H: Host>(name: &str, cfg: &Object, host: &mut H) -> (r: Result<(), String>)
    ensures
        (final(host).machine(), unit_result(r)) == set_up::<H>(old(host).machine(), name@, cfg@),
{
    let block = match cfg.get("mcollective") {
        Some(block) => block,
        None => {
            log_debug(host, cat3("Skipping module named ", name, ", no 'mcollective' key in configuration").as_str());
            return Ok(());
        },
    };
    let mut packages: Vec<Node> = Vec::new();
    packages.push(Node::text("mcollective"));
    assert(vals(packages@) =~= seq![Val::Text("mcollective"@)]);
    match host.install_packages(&Node::Array(packages)) {
        Ok(()) => {},
        Err(e) => return Err(e),
    }
    match sub_option(block, "conf") {
        Err(e) => return Err(e),
        Ok(None) => {},
        Ok(Some(conf)) => {
            match configure(&conf, host) {
                Ok(()) => {},
                Err(e) => return Err(e),
            }
        },
    }
    match host.subp(&argv3("service", "mcollective", "restart")) {
        Ok(()) => Ok(()),
        Err(e) => Err(e.to_text()),
    }
}

// ---------------------------------------------------------------------------
// Laws

/// Without a configuration all that happens is a line in the log that says so.
pub proof fn no_configuration_asks_nothing<H: Host>(m: Server<H>, name: Seq<char>, cfg: Seq<(Seq<char>, Val)>)
    requires
        get(cfg, "mcollective"@) is None,
    ensures
        set_up::<H>(m, name, cfg) == (logged::<H>(m, no_key_text(name)), Ok::<(), Seq<char>>(())),
{
}

/// A configuration that is no mapping changes no setting: the old settings are read
/// and nothing else is done.
pub proof fn only_a_mapping_is_folded_in<H: Host>(m: Server<H>, config: Val)
    requires
        !(config is Object),
    ensures
        configured::<H>(m, config).0 == settings_taken::<H>(m).0,
        configured::<H>(m, config).1 is Err,
{
}

/// The file aside is made before the settings are made a file: where that fails, it
/// was already copied.
pub proof fn copied_before_written<H: Host>(m: Server<H>)
    requires
        ask_copy::<H>(m, SERVER_CFG@, SERVER_CFG@ + ".old"@).1 is Ok,
        ask_settings_file::<H>(ask_copy::<H>(m, SERVER_CFG@, SERVER_CFG@ + ".old"@).0).1 is Err,
    ensures
        settings_saved::<H>(m).0.calls == m.calls.push(
            Call::Copy { src: SERVER_CFG@, dest: SERVER_CFG@ + ".old"@ },
        ).push(Call::SettingsFile),
{
}

}
