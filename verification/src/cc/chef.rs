//! Setting up chef: its directories, its configuration, and the client itself.
//!
//! The directories are made and old ones emptied before anything else of the
//! configuration is looked at.

use vstd::prelude::*;

use crate::cc::chef::host::{
    ask_ensure_dir, ask_ensure_dirs, ask_install_packages, ask_instance_id, ask_is_exe, ask_is_file, ask_listdir,
    ask_load_text_file, ask_make_header, ask_move_path, ask_path_exists, ask_readurl, ask_render, ask_renderer,
    ask_report, ask_subp, ask_sym_link, ask_tempdir, ask_template_path, ask_unlink, ask_write_file, informed, log_debug,
    log_info, log_warn, logged, warned, Kitchen,
};
use crate::cc::{cmd_text, option_in, sub_option, text_result, unit_result};
use crate::dumps::{dumped, dumps};
use crate::machine::Level;
use crate::number::{parse_i64, signed};
use crate::order::{insert_text, with_text};
use crate::paths::{path_join, path_joined};
use crate::show::{
    cfg_str, get_bool, kind_name, kind_text, py_str, py_truthy, quoted, repr_str, show, shown_at, switch,
    switched_on, translate_bool, truthy,
};
use crate::space::{trim, trim_end, trim_end_of, trim_of, Class};
use crate::text::{argv1, argv2, argv3, cat2, cat3, cat4, cat5, chars_of, opt_text, rfind, same, slice_text, texts};
use crate::value::{get, put, vals, Node, Object, Val};

pub mod host;
pub mod laws;

pub use crate::cc::chef::host::{Fixture, Host};

verus! {

/// How often a download is tried again, where nothing is said of it.
pub const OMNIBUS_URL_RETRIES: i64 = 5;

pub const OMNIBUS_URL: &'static str = "https://www.chef.io/chef/install.sh";

pub const CHEF_VALIDATION_PEM_PATH: &'static str = "/etc/chef/validation.pem";

// ---------------------------------------------------------------------------
// Directories

/// The directories that are made where none are named.
pub open spec fn default_dirs() -> Seq<Val> {
    seq![
        Val::Text("/etc/chef"@),
        Val::Text("/var/log/chef"@),
        Val::Text("/var/lib/chef"@),
        Val::Text("/var/chef/cache"@),
        Val::Text("/var/chef/backup"@),
        Val::Text("/var/run/chef"@),
    ]
}

/// The directories to make: those that are named, or the usual ones, and
/// `/etc/chef` behind them in any case.
pub open spec fn wanted_dirs(block: Val) -> Result<Seq<Val>, Seq<char>> {
    match option_in(block, "directories"@) {
        Err(e) => Err(e),
        Ok(named) => Ok(
            (match named {
                Some(Val::Array(items)) => if items.len() > 0 {
                    items
                } else {
                    default_dirs()
                },
                None | Some(Val::Null) => default_dirs(),
                Some(other) => seq![Val::Text(show(other))],
            }).push(Val::Text("/etc/chef"@)),
        ),
    }
}

fn default_dirs_list() -> (r: Vec<Node>)
    ensures
        vals(r@) == default_dirs(),
{
    let mut out: Vec<Node> = Vec::new();
    out.push(Node::text("/etc/chef"));
    out.push(Node::text("/var/log/chef"));
    out.push(Node::text("/var/lib/chef"));
    out.push(Node::text("/var/chef/cache"));
    out.push(Node::text("/var/chef/backup"));
    out.push(Node::text("/var/run/chef"));
    assert(vals(out@) =~= default_dirs());
    out
}

fn wanted_dirs_of(block: &Node) -> (r: Result<Vec<Node>, String>)
    ensures
        match r {
            Ok(v) => wanted_dirs(block@) == Ok::<Seq<Val>, Seq<char>>(vals(v@)),
            Err(e) => wanted_dirs(block@) == Err::<Seq<Val>, Seq<char>>(e@),
        },
{
    let named = match sub_option(block, "directories") {
        Ok(named) => named,
        Err(e) => return Err(e),
    };
    let mut dirs = match named {
        None => default_dirs_list(),
        Some(Node::Null) => default_dirs_list(),
        Some(Node::Array(items)) => if items.len() > 0 {
            items
        } else {
            default_dirs_list()
        },
        Some(other) => {
            let mut one: Vec<Node> = Vec::new();
            one.push(Node::Text(py_str(&other)));
            assert(vals(one@) =~= seq![Val::Text(show(other@))]);
            one
        },
    };
    let ghost before = vals(dirs@);
    dirs.push(Node::text("/etc/chef"));
    assert(vals(dirs@) =~= before.push(Val::Text("/etc/chef"@)));
    Ok(dirs)
}

/// Makes directory after directory; the first failure ends it.
pub open spec fn make_dirs<H: Host>(m: Kitchen<H>, dirs: Seq<Val>) -> (Kitchen<H>, Result<(), Seq<char>>)
    decreases dirs.len(),
{
    if dirs.len() == 0 {
        (m, Ok(()))
    } else {
        let (m1, made) = ask_ensure_dir::<H>(m, dirs[0]);
        match made {
            Err(e) => (m1, Err(e)),
            Ok(()) => make_dirs::<H>(m1, dirs.skip(1)),
        }
    }
}

fn make_dirs_of<H: Host>(host: &mut H, dirs: &Vec<Node>) -> (r: Result<(), String>)
    ensures
        (final(host).machine(), unit_result(r)) == make_dirs::<H>(old(host).machine(), vals(dirs@)),
{
    let ghost all = vals(dirs@);
    let mut i: usize = 0;
    assert(all.skip(0) =~= all);
    while i < dirs.len()
        invariant
            i <= dirs@.len(),
            all == vals(dirs@),
            make_dirs::<H>(host.machine(), all.skip(i as int)) == make_dirs::<H>(old(host).machine(), all),
        decreases dirs.len() - i,
    {
        assert(all.skip(i as int)[0] == dirs@[i as int]@);
        assert(all.skip(i as int).skip(1) =~= all.skip(i + 1));
        match host.ensure_dir(&dirs[i]) {
            Ok(()) => {},
            Err(e) => return Err(e),
        }
        i += 1;
    }
    Ok(())
}

/// Moves files from one directory to another. One that is there already stays
/// where it is.
pub open spec fn move_files<H: Host>(m: Kitchen<H>, from: Seq<char>, to: Seq<char>, names: Seq<Seq<char>>) -> (
    Kitchen<H>,
    Result<(), Seq<char>>,
)
    decreases names.len(),
{
    if names.len() == 0 {
        (m, Ok(()))
    } else {
        let old = path_joined(from, names[0]);
        let (m1, there) = ask_path_exists::<H>(m, path_joined(to, names[0]));
        if there {
            let m2 = logged::<H>(m1, "Ignoring migration of "@ + old + ". File already exists in "@ + to + "."@);
            move_files::<H>(m2, from, to, names.skip(1))
        } else {
            let (m2, moved) = ask_move_path::<H>(
                logged::<H>(m1, "Moving "@ + old + " to "@ + to + "."@),
                old,
                to,
            );
            match moved {
                Err(e) => (m2, Err(e)),
                Ok(()) => move_files::<H>(m2, from, to, names.skip(1)),
            }
        }
    }
}

/// Empties an old directory into a new one, if it is there.
pub open spec fn migrate<H: Host>(m: Kitchen<H>, from: Seq<char>, to: Seq<char>) -> (Kitchen<H>, Result<(), Seq<char>>) {
    let (m1, there) = ask_path_exists::<H>(m, from);
    if !there {
        (m1, Ok(()))
    } else {
        let (m2, names) = ask_listdir::<H>(m1, from);
        match names {
            Err(e) => (m2, Err(e)),
            Ok(names) => move_files::<H>(m2, from, to, names),
        }
    }
}

fn migrate_dir<H: Host>(host: &mut H, from: &str, to: &str) -> (r: Result<(), String>)
    ensures
        (final(host).machine(), unit_result(r)) == migrate::<H>(old(host).machine(), from@, to@),
{
    if !host.path_exists(from) {
        return Ok(());
    }
    let names = match host.listdir(from) {
        Ok(names) => names,
        Err(e) => return Err(e),
    };
    let ghost all = texts(names@);
    let ghost m2 = host.machine();
    let mut i: usize = 0;
    assert(all.skip(0) =~= all);
    while i < names.len()
        invariant
            i <= names@.len(),
            all == texts(names@),
            migrate::<H>(old(host).machine(), from@, to@) == move_files::<H>(m2, from@, to@, all),
            move_files::<H>(host.machine(), from@, to@, all.skip(i as int)) == move_files::<H>(m2, from@, to@, all),
        decreases names.len() - i,
    {
        let name = names[i].as_str();
        assert(all.skip(i as int)[0] == name@);
        assert(all.skip(i as int).skip(1) =~= all.skip(i + 1));
        let old_path = path_join(from, name);
        if host.path_exists(path_join(to, name).as_str()) {
            log_debug(
                host,
                cat5("Ignoring migration of ", old_path.as_str(), ". File already exists in ", to, ".").as_str(),
            );
        } else {
            log_debug(host, cat5("Moving ", old_path.as_str(), " to ", to, ".").as_str());
            match host.move_path(old_path.as_str(), to) {
                Ok(()) => {},
                Err(e) => return Err(e),
            }
        }
        i += 1;
    }
    Ok(())
}

/// Empties the two old directories.
pub open spec fn migrate_all<H: Host>(m: Kitchen<H>) -> (Kitchen<H>, Result<(), Seq<char>>) {
    let (m1, first) = migrate::<H>(m, "/var/cache/chef"@, "/var/chef/cache"@);
    match first {
        Err(e) => (m1, Err(e)),
        Ok(()) => migrate::<H>(m1, "/var/backups/chef"@, "/var/chef/backup"@),
    }
}

pub fn migrate_chef_config_dirs<H: Host>(host: &mut H) -> (r: Result<(), String>)
    ensures
        (final(host).machine(), unit_result(r)) == migrate_all::<H>(old(host).machine()),
{
    match migrate_dir(host, "/var/cache/chef", "/var/chef/cache") {
        Ok(()) => migrate_dir(host, "/var/backups/chef", "/var/chef/backup"),
        Err(e) => Err(e),
    }
}

/// The directory that a path is in. A root of nothing but slashes keeps them all.
pub open spec fn posix_parent(path: Seq<char>) -> Seq<char> {
    let head = match rfind(path, '/') {
        Some(i) => path.take(i + 1),
        None => Seq::empty(),
    };
    let trimmed = trim_end(Class::One('/'), head);
    if trimmed.len() > 0 {
        trimmed
    } else {
        head
    }
}

pub fn dirname(path: &str) -> (r: String)
    ensures
        r@ == posix_parent(path@),
{
    let a = chars_of(path);
    let mut n: usize = a.len();
    assert(a@.take(n as int) =~= a@);
    while n > 0 && a[n - 1] != '/'
        invariant
            a@ == path@,
            n <= a@.len(),
            rfind(a@.take(n as int), '/') == rfind(path@, '/'),
        decreases n,
    {
        assert(a@.take(n as int).drop_last() =~= a@.take(n - 1));
        n -= 1;
    }
    let head = slice_text(&a, 0, n);
    assert(head@ =~= a@.take(n as int));
    assert(n == 0 ==> head@ =~= Seq::empty());
    let trimmed = trim_end_of(Class::One('/'), head.as_str());
    if trimmed.as_str().is_empty() {
        head
    } else {
        trimmed
    }
}

// ---------------------------------------------------------------------------
// The template

/// What the template is given where the configuration says nothing.
pub open spec fn default_params() -> Seq<(Seq<char>, Val)> {
    seq![
        ("ssl_verify_mode"@, Val::Text(":verify_none"@)),
        ("log_level"@, Val::Text(":info"@)),
        ("log_location"@, Val::Text("/var/log/chef/client.log"@)),
        ("validation_key"@, Val::Text("/etc/chef/validation.pem"@)),
        ("validation_cert"@, Val::Null),
        ("client_key"@, Val::Text("/etc/chef/client.pem"@)),
        ("json_attribs"@, Val::Text("/etc/chef/firstboot.json"@)),
        ("file_cache_path"@, Val::Text("/var/chef/cache"@)),
        ("file_backup_path"@, Val::Text("/var/chef/backup"@)),
        ("pid_file"@, Val::Text("/var/run/chef/client.pid"@)),
        ("show_time"@, Val::Bool(true)),
        ("encrypted_data_bag_secret"@, Val::Null),
    ]
}

/// The keys of the configuration whose values are paths.
pub open spec fn is_path_key(key: Seq<char>) -> bool {
    ||| key == "log_location"@
    ||| key == "validation_key"@
    ||| key == "client_key"@
    ||| key == "file_cache_path"@
    ||| key == "json_attribs"@
    ||| key == "pid_file"@
    ||| key == "encrypted_data_bag_secret"@
}

/// The keys of the configuration that the template knows.
pub open spec fn is_template_key(key: Seq<char>) -> bool {
    ||| is_path_key(key)
    ||| key == "ssl_verify_mode"@
    ||| key == "log_level"@
    ||| key == "validation_cert"@
    ||| key == "file_backup_path"@
    ||| key == "show_time"@
    ||| key == "server_url"@
    ||| key == "node_name"@
    ||| key == "environment"@
    ||| key == "validation_name"@
    ||| key == "chef_license"@
}

fn path_key(key: &str) -> (r: bool)
    ensures
        r == is_path_key(key@),
{
    same(key, "log_location") || same(key, "validation_key") || same(key, "client_key") || same(key, "file_cache_path")
        || same(key, "json_attribs") || same(key, "pid_file") || same(key, "encrypted_data_bag_secret")
}

fn template_key(key: &str) -> (r: bool)
    ensures
        r == is_template_key(key@),
{
    path_key(key) || same(key, "ssl_verify_mode") || same(key, "log_level") || same(key, "validation_cert") || same(
        key,
        "file_backup_path",
    ) || same(key, "show_time") || same(key, "server_url") || same(key, "node_name") || same(key, "environment")
        || same(key, "validation_name") || same(key, "chef_license")
}

/// A value as the template takes it.
pub open spec fn param(key: Seq<char>, v: Val) -> Val {
    if v is Null {
        Val::Null
    } else if key == "show_time"@ {
        Val::Bool(switched_on(v))
    } else {
        Val::Text(show(v))
    }
}

/// Parameters with those of the configuration set.
pub open spec fn with_params(params: Seq<(Seq<char>, Val)>, cfg: Seq<(Seq<char>, Val)>) -> Seq<(Seq<char>, Val)>
    decreases cfg.len(),
{
    if cfg.len() == 0 {
        params
    } else {
        let before = with_params(params, cfg.drop_last());
        if is_template_key(cfg.last().0) {
            put(before, cfg.last().0, param(cfg.last().0, cfg.last().1))
        } else {
            before
        }
    }
}

/// A printed setting, or a default.
pub open spec fn shown_or(cfg: Seq<(Seq<char>, Val)>, key: Seq<char>, default: Seq<char>) -> Seq<char> {
    match shown_at(cfg, key) {
        Some(s) => s,
        None => default,
    }
}

pub fn cfg_str_or(cfg: &Object, key: &str, default: &str) -> (r: String)
    ensures
        r@ == shown_or(cfg@, key@, default@),
{
    match cfg_str(cfg, key) {
        Some(s) => s,
        None => default.to_owned(),
    }
}

/// The parameters of the template. The server and the validation name must be
/// set.
pub open spec fn template_params(cfg: Seq<(Seq<char>, Val)>, iid: Seq<char>, header: Seq<char>) -> Result<
    Seq<(Seq<char>, Val)>,
    Seq<char>,
> {
    match (get(cfg, "server_url"@), get(cfg, "validation_name"@)) {
        (None, _) => Err("'server_url'"@),
        (_, None) => Err("'validation_name'"@),
        (Some(server), Some(name)) => {
            let p0 = with_params(default_params(), cfg);
            let p1 = put(p0, "generated_by"@, Val::Text(header));
            let p2 = put(p1, "node_name"@, Val::Text(shown_or(cfg, "node_name"@, iid)));
            let p3 = put(p2, "environment"@, Val::Text(shown_or(cfg, "environment"@, "_default"@)));
            let p4 = put(p3, "server_url"@, server);
            Ok(put(p4, "validation_name"@, name))
        },
    }
}

fn default_params_object() -> (r: Object)
    ensures
        r@ == default_params(),
{
    let mut p = Object::new();
    proof {
        reveal_strlit("ssl_verify_mode");
        reveal_strlit("log_level");
        reveal_strlit("log_location");
        reveal_strlit("validation_key");
        reveal_strlit("validation_cert");
        reveal_strlit("client_key");
        reveal_strlit("json_attribs");
        reveal_strlit("file_cache_path");
        reveal_strlit("file_backup_path");
        reveal_strlit("pid_file");
        reveal_strlit("show_time");
        reveal_strlit("encrypted_data_bag_secret");
    }
    let ghost want = default_params();
    proof {
        assert(want[0].0.len() == 15 && want[0].0[0] == 's');
        assert(want[1].0.len() == 9 && want[1].0[0] == 'l');
        assert(want[2].0.len() == 12 && want[2].0[0] == 'l');
        assert(want[3].0.len() == 14 && want[3].0[0] == 'v');
        assert(want[4].0.len() == 15 && want[4].0[0] == 'v');
        assert(want[5].0.len() == 10 && want[5].0[0] == 'c');
        assert(want[6].0.len() == 12 && want[6].0[0] == 'j');
        assert(want[7].0.len() == 15 && want[7].0[0] == 'f');
        assert(want[8].0.len() == 16 && want[8].0[0] == 'f');
        assert(want[9].0.len() == 8 && want[9].0[0] == 'p');
        assert(want[10].0.len() == 9 && want[10].0[0] == 's');
        assert(want[11].0.len() == 25 && want[11].0[0] == 'e');
        put_new(want, 0);
        put_new(want, 1);
        put_new(want, 2);
        put_new(want, 3);
        put_new(want, 4);
        put_new(want, 5);
        put_new(want, 6);
        put_new(want, 7);
        put_new(want, 8);
        put_new(want, 9);
        put_new(want, 10);
        put_new(want, 11);
        assert(want.take(0) =~= p@);
    }
    p.insert("ssl_verify_mode", Node::text(":verify_none"));
    p.insert("log_level", Node::text(":info"));
    p.insert("log_location", Node::text("/var/log/chef/client.log"));
    p.insert("validation_key", Node::text("/etc/chef/validation.pem"));
    p.insert("validation_cert", Node::Null);
    p.insert("client_key", Node::text("/etc/chef/client.pem"));
    p.insert("json_attribs", Node::text("/etc/chef/firstboot.json"));
    p.insert("file_cache_path", Node::text("/var/chef/cache"));
    p.insert("file_backup_path", Node::text("/var/chef/backup"));
    p.insert("pid_file", Node::text("/var/run/chef/client.pid"));
    p.insert("show_time", Node::Bool(true));
    p.insert("encrypted_data_bag_secret", Node::Null);
    assert(want.take(12) =~= want);
    p
}

/// Setting a key that is not there yet puts it last.
proof fn put_new(want: Seq<(Seq<char>, Val)>, i: int)
    requires
        0 <= i < want.len(),
        forall|j: int| 0 <= j < i ==> (#[trigger] want[j]).0 != want[i].0,
    ensures
        put(want.take(i), want[i].0, want[i].1) == want.take(i + 1),
{
    crate::value::index_of_is_first(want.take(i), want[i].0);
    match crate::value::index_of(want.take(i), want[i].0) {
        Some(k) => {
            assert(want.take(i)[k] == want[k]);
        },
        None => {},
    }
    assert(want.take(i).push(want[i]) =~= want.take(i + 1));
}

pub fn get_template_params(cfg: &Object, iid: &str, header: String) -> (r: Result<Object, String>)
    ensures
        match r {
            Ok(o) => template_params(cfg@, iid@, header@) == Ok::<Seq<(Seq<char>, Val)>, Seq<char>>(o@),
            Err(e) => template_params(cfg@, iid@, header@) == Err::<Seq<(Seq<char>, Val)>, Seq<char>>(e@),
        },
{
    let mut params = default_params_object();
    let mut i: usize = 0;
    assert(cfg@.take(0) =~= Seq::empty());
    while i < cfg.len()
        invariant
            i <= cfg@.len(),
            params@ == with_params(default_params(), cfg@.take(i as int)),
        decreases cfg@.len() - i,
    {
        let key = cfg.key_at(i).as_str();
        let value = cfg.value_at(i);
        if template_key(key) {
            let rendered = if value.is_null() {
                Node::Null
            } else if same(key, "show_time") {
                Node::Bool(translate_bool(value))
            } else {
                Node::Text(py_str(value))
            };
            params.insert(key, rendered);
        }
        i += 1;
        assert(cfg@.take(i as int).drop_last() =~= cfg@.take(i - 1));
    }
    assert(cfg@.take(i as int) =~= cfg@);
    let server = match cfg.get("server_url") {
        Some(v) => v.clone(),
        None => return Err("'server_url'".to_owned()),
    };
    let name = match cfg.get("validation_name") {
        Some(v) => v.clone(),
        None => return Err("'validation_name'".to_owned()),
    };
    params.insert("generated_by", Node::Text(header));
    params.insert("node_name", Node::Text(cfg_str_or(cfg, "node_name", iid)));
    params.insert("environment", Node::Text(cfg_str_or(cfg, "environment", "_default")));
    params.insert("server_url", server);
    params.insert("validation_name", name);
    Ok(params)
}

/// The directories of the paths among parameters, in order.
pub open spec fn param_dirs(params: Seq<(Seq<char>, Val)>) -> Seq<Seq<char>>
    decreases params.len(),
{
    if params.len() == 0 {
        Seq::empty()
    } else {
        let before = param_dirs(params.drop_last());
        if is_path_key(params.last().0) && truthy(params.last().1) {
            with_text(before, posix_parent(show(params.last().1)))
        } else {
            before
        }
    }
}

fn param_dirs_of(params: &Object) -> (r: Vec<String>)
    ensures
        texts(r@) == param_dirs(params@),
{
    let mut out: Vec<String> = Vec::new();
    let mut i: usize = 0;
    assert(texts(out@) =~= Seq::empty());
    assert(params@.take(0) =~= Seq::empty());
    while i < params.len()
        invariant
            i <= params@.len(),
            texts(out@) == param_dirs(params@.take(i as int)),
        decreases params@.len() - i,
    {
        let value = params.value_at(i);
        if path_key(params.key_at(i).as_str()) && py_truthy(value) {
            insert_text(&mut out, dirname(py_str(value).as_str()).as_str());
        }
        i += 1;
        assert(params@.take(i as int).drop_last() =~= params@.take(i - 1));
    }
    assert(params@.take(i as int) =~= params@);
    out
}

/// Says of each setting that the template does not know that it is passed over.
pub open spec fn unknown_told<H: Host>(m: Kitchen<H>, cfg: Seq<(Seq<char>, Val)>) -> Kitchen<H>
    decreases cfg.len(),
{
    if cfg.len() == 0 {
        m
    } else if is_template_key(cfg[0].0) {
        unknown_told::<H>(m, cfg.skip(1))
    } else {
        unknown_told::<H>(logged::<H>(m, "Skipping unknown chef template key '"@ + cfg[0].0 + "'"@), cfg.skip(1))
    }
}

fn tell_unknown<H: Host>(cfg: &Object, host: &mut H)
    ensures
        final(host).machine() == unknown_told::<H>(old(host).machine(), cfg@),
{
    let ghost all = cfg@;
    let mut i: usize = 0;
    assert(all.skip(0) =~= all);
    while i < cfg.len()
        invariant
            i <= cfg@.len(),
            all == cfg@,
            unknown_told::<H>(host.machine(), all.skip(i as int)) == unknown_told::<H>(old(host).machine(), all),
        decreases cfg@.len() - i,
    {
        assert(all.skip(i as int)[0] == all[i as int]);
        assert(all.skip(i as int).skip(1) =~= all.skip(i + 1));
        let key = cfg.key_at(i).as_str();
        if !template_key(key) {
            log_debug(host, cat3("Skipping unknown chef template key '", key, "'").as_str());
        }
        i += 1;
    }
}

/// Fills in a template, once it was said what with.
pub open spec fn filled_in<H: Host>(m: Kitchen<H>, template: Seq<char>, text: Seq<char>, params: Seq<(Seq<char>, Val)>) -> (
    Kitchen<H>,
    Result<Seq<char>, Seq<char>>,
) {
    let (m1, renderer) = ask_renderer::<H>(m, text);
    match renderer {
        Err(e) => (m1, Err(e)),
        Ok(renderer) => {
            let said = "Rendering content of '"@ + template + "' using renderer "@ + renderer;
            ask_render::<H>(ask_report::<H>(m1, Level::Debug, "templater.py"@, said), text, params)
        },
    }
}

fn fill_in<H: Host>(template: &str, text: &str, params: &Object, host: &mut H) -> (r: Result<String, String>)
    ensures
        (final(host).machine(), text_result(r)) == filled_in::<H>(old(host).machine(), template@, text@, params@),
{
    match host.renderer(text) {
        Err(e) => Err(e),
        Ok(renderer) => {
            let said = cat4("Rendering content of '", template, "' using renderer ", renderer.as_str());
            host.report(Level::Debug, "templater.py", said.as_str());
            host.render(text, params)
        },
    }
}

/// Warns, under two names, that there is no template.
pub open spec fn no_template_told<H: Host>(m: Kitchen<H>, template: Seq<char>, target: Seq<char>) -> Kitchen<H> {
    let m1 = ask_report::<H>(
        m,
        Level::Warning,
        "cloud.py"@,
        "No template found in "@ + posix_parent(template) + " for template named chef_client.rb"@,
    );
    warned::<H>(m1, "No template found, not rendering to "@ + target)
}

/// Renders the client's configuration from its template, where there is one.
pub open spec fn write_client_rb<H: Host>(m: Kitchen<H>, cfg: Seq<(Seq<char>, Val)>) -> (Kitchen<H>, Result<(), Seq<char>>) {
    let target = shown_or(cfg, "config_path"@, "/etc/chef/client.rb"@);
    let (m1, template) = ask_template_path::<H>(m, "chef_client.rb"@);
    if !template.1 {
        (no_template_told::<H>(m1, template.0, target), Ok(()))
    } else {
        let (m2, iid) = ask_instance_id::<H>(m1);
        let (m3, header) = ask_make_header::<H>(unknown_told::<H>(m2, cfg));
        match template_params(cfg, iid, header) {
            Err(e) => (m3, Err(e)),
            Ok(params) => {
                let (m4, made) = ask_ensure_dirs::<H>(m3, param_dirs(params));
                match made {
                    Err(e) => (m4, Err(e)),
                    Ok(()) => {
                        let (m5, text) = ask_load_text_file::<H>(m4, template.0);
                        match text {
                            Err(e) => (m5, Err(e)),
                            Ok(text) => {
                                let (m6, rendered) = filled_in::<H>(m5, template.0, text, params);
                                match rendered {
                                    Err(e) => (m6, Err(e)),
                                    Ok(rendered) => ask_write_file::<H>(m6, target, rendered, 0o644),
                                }
                            },
                        }
                    },
                }
            },
        }
    }
}

fn render_client_rb<H: Host>(host: &mut H, cfg: &Object) -> (r: Result<(), String>)
    ensures
        (final(host).machine(), unit_result(r)) == write_client_rb::<H>(old(host).machine(), cfg@),
{
    let target = cfg_str_or(cfg, "config_path", "/etc/chef/client.rb");
    let (template, found) = host.template_path("chef_client.rb");
    if !found {
        host.report(
            Level::Warning,
            "cloud.py",
            cat3(
                "No template found in ",
                dirname(template.as_str()).as_str(),
                " for template named chef_client.rb",
            ).as_str(),
        );
        log_warn(host, cat2("No template found, not rendering to ", target.as_str()).as_str());
        return Ok(());
    }
    let iid = host.instance_id();
    tell_unknown(cfg, host);
    let header = host.make_header();
    let params = match get_template_params(cfg, iid.as_str(), header) {
        Ok(params) => params,
        Err(e) => return Err(e),
    };
    match host.ensure_dirs(&param_dirs_of(&params)) {
        Ok(()) => {},
        Err(e) => return Err(e),
    }
    let text = match host.load_text_file(template.as_str()) {
        Ok(text) => text,
        Err(e) => return Err(e),
    };
    match fill_in(template.as_str(), text.as_str(), &params, host) {
        Ok(rendered) => host.write_file(target.as_str(), rendered.as_str(), 0o644),
        Err(e) => Err(e),
    }
}

// ---------------------------------------------------------------------------
// The validation key and the first boot

/// Writes the validation key. `system` says that it is there already; that it is not
/// is warned of.
pub open spec fn write_validation<H: Host>(m: Kitchen<H>, cfg: Seq<(Seq<char>, Val)>) -> (Kitchen<H>, Result<(), Seq<char>>) {
    let path = shown_or(cfg, "validation_key"@, "/etc/chef/validation.pem"@);
    match get(cfg, "validation_cert"@) {
        None => (m, Ok(())),
        Some(cert) => if !truthy(cert) {
            (m, Ok(()))
        } else {
            match cert {
                Val::Text(text) => if text == "system"@ {
                    let (m1, there) = ask_is_file::<H>(m, path);
                    (
                        if there {
                            m1
                        } else {
                            warned::<H>(
                                m1,
                                "chef validation_cert provided as 'system', but validation_key path '"@ + path
                                    + "' does not exist."@,
                            )
                        },
                        Ok(()),
                    )
                } else {
                    ask_write_file::<H>(m, path, text, 0o644)
                },
                _ => (m, Err("'"@ + kind_text(cert) + "' object has no attribute 'encode'"@)),
            }
        },
    }
}

fn write_validation_key<H: Host>(host: &mut H, cfg: &Object) -> (r: Result<(), String>)
    ensures
        (final(host).machine(), unit_result(r)) == write_validation::<H>(old(host).machine(), cfg@),
{
    let path = cfg_str_or(cfg, "validation_key", "/etc/chef/validation.pem");
    let cert = match cfg.get("validation_cert") {
        Some(cert) => cert,
        None => return Ok(()),
    };
    if !py_truthy(cert) {
        return Ok(());
    }
    match cert {
        Node::Text(text) => {
            if same(text.as_str(), "system") {
                if !host.is_file(path.as_str()) {
                    log_warn(
                        host,
                        cat3(
                            "chef validation_cert provided as 'system', but validation_key path '",
                            path.as_str(),
                            "' does not exist.",
                        ).as_str(),
                    );
                }
                Ok(())
            } else {
                host.write_file(path.as_str(), text.as_str(), 0o644)
            }
        },
        other => Err(cat3("'", kind_name(other).as_str(), "' object has no attribute 'encode'")),
    }
}

/// A mapping with the entries of another set in it.
pub open spec fn with_entries(m: Seq<(Seq<char>, Val)>, more: Seq<(Seq<char>, Val)>) -> Seq<(Seq<char>, Val)>
    decreases more.len(),
{
    if more.len() == 0 {
        m
    } else {
        put(with_entries(m, more.drop_last()), more.last().0, more.last().1)
    }
}

pub fn add_entries(m: &mut Object, more: &Object)
    ensures
        final(m)@ == with_entries(old(m)@, more@),
{
    let mut i: usize = 0;
    assert(more@.take(0) =~= Seq::empty());
    while i < more.len()
        invariant
            i <= more@.len(),
            m@ == with_entries(old(m)@, more@.take(i as int)),
        decreases more@.len() - i,
    {
        m.insert(more.key_at(i).as_str(), more.value_at(i).clone());
        i += 1;
        assert(more@.take(i as int).drop_last() =~= more@.take(i - 1));
    }
    assert(more@.take(i as int) =~= more@);
}

/// What the first boot is to start with.
pub open spec fn first_boot(cfg: Seq<(Seq<char>, Val)>) -> Result<Seq<(Seq<char>, Val)>, Seq<char>> {
    let base = match get(cfg, "run_list"@) {
        Some(list) => put(Seq::empty(), "run_list"@, list),
        None => Seq::empty(),
    };
    match get(cfg, "initial_attributes"@) {
        None => Ok(base),
        Some(Val::Object(attributes)) => Ok(with_entries(base, attributes)),
        Some(other) => Err("'"@ + kind_text(other) + "' object has no attribute 'keys'"@),
    }
}

/// Writes what the first boot is to start with, unless its path is empty.
pub open spec fn write_first_boot<H: Host>(m: Kitchen<H>, cfg: Seq<(Seq<char>, Val)>) -> (Kitchen<H>, Result<(), Seq<char>>) {
    let path = shown_or(cfg, "firstboot_path"@, "/etc/chef/firstboot.json"@);
    if path.len() == 0 {
        (informed::<H>(m, "First boot path empty, not writing first boot json file"@), Ok(()))
    } else {
        match first_boot(cfg) {
            Err(e) => (m, Err(e)),
            Ok(start) => ask_write_file::<H>(m, path, dumped(Val::Object(start)), 0o644),
        }
    }
}

fn write_firstboot_json<H: Host>(host: &mut H, cfg: &Object) -> (r: Result<(), String>)
    ensures
        (final(host).machine(), unit_result(r)) == write_first_boot::<H>(old(host).machine(), cfg@),
{
    let path = cfg_str_or(cfg, "firstboot_path", "/etc/chef/firstboot.json");
    if path.as_str().is_empty() {
        log_info(host, "First boot path empty, not writing first boot json file");
        return Ok(());
    }
    let mut start = Object::new();
    if let Some(list) = cfg.get("run_list") {
        start.insert("run_list", list.clone());
    }
    match cfg.get("initial_attributes") {
        None => {},
        Some(Node::Object(attributes)) => add_entries(&mut start, attributes),
        Some(other) => return Err(cat3("'", kind_name(other).as_str(), "' object has no attribute 'keys'")),
    }
    host.write_file(path.as_str(), dumps(&Node::Object(start)).as_str(), 0o644)
}

// ---------------------------------------------------------------------------
// Installing

/// Runs a command whose failure is reported.
pub open spec fn must_run<H: Host>(m: Kitchen<H>, argv: Seq<Seq<char>>) -> (Kitchen<H>, Result<(), Seq<char>>) {
    let (m1, out) = ask_subp::<H>(m, argv);
    (
        m1,
        match out {
            Ok(()) => Ok(()),
            Err(e) => Err(cmd_text(e)),
        },
    )
}

fn must_run_of<H: Host>(host: &mut H, argv: &Vec<String>) -> (r: Result<(), String>)
    ensures
        (final(host).machine(), unit_result(r)) == must_run::<H>(old(host).machine(), texts(argv@)),
{
    match host.subp(argv) {
        Ok(()) => Ok(()),
        Err(e) => Err(e.to_text()),
    }
}

/// The packages of a version of Ruby.
pub open spec fn ruby_packages(version: Seq<char>) -> Seq<Seq<char>> {
    let base = seq!["ruby"@ + version, "ruby"@ + version + "-dev"@];
    if version == "1.8"@ {
        base + seq!["libopenssl-ruby1.8"@, "rubygems1.8"@]
    } else {
        base
    }
}

pub fn get_ruby_packages(version: &str) -> (r: Vec<String>)
    ensures
        texts(r@) == ruby_packages(version@),
{
    let mut out = argv2(cat2("ruby", version).as_str(), cat3("ruby", version, "-dev").as_str());
    if same(version, "1.8") {
        out.push("libopenssl-ruby1.8".to_owned());
        out.push("rubygems1.8".to_owned());
    }
    assert(texts(out@) =~= ruby_packages(version@));
    out
}

/// Links a program to that of a version of Ruby, unless it is there.
pub open spec fn link_program<H: Host>(m: Kitchen<H>, program: Seq<char>, version: Seq<char>) -> (
    Kitchen<H>,
    Result<(), Seq<char>>,
) {
    let (m1, there) = ask_path_exists::<H>(m, program);
    if there {
        (m1, Ok(()))
    } else {
        ask_sym_link::<H>(m1, program + version, program)
    }
}

fn link_program_of<H: Host>(host: &mut H, program: &str, version: &str) -> (r: Result<(), String>)
    ensures
        (final(host).machine(), unit_result(r)) == link_program::<H>(old(host).machine(), program@, version@),
{
    if host.path_exists(program) {
        return Ok(());
    }
    host.sym_link(cat2(program, version).as_str(), program)
}

/// The command that installs the gem. A version is one word with its flag.
pub open spec fn gem_command(version: Option<Seq<char>>) -> Seq<Seq<char>> {
    let base = seq!["/usr/bin/gem"@, "install"@, "chef"@];
    (match version {
        Some(v) => if v.len() > 0 {
            base.push("-v "@ + v)
        } else {
            base
        },
        None => base,
    }) + seq!["--no-ri"@, "--no-rdoc"@, "--bindir"@, "/usr/bin"@, "-q"@]
}

fn gem_command_of(version: &Option<String>) -> (r: Vec<String>)
    ensures
        texts(r@) == gem_command(opt_text(*version)),
{
    let mut argv = argv3("/usr/bin/gem", "install", "chef");
    if let Some(v) = version {
        if !v.as_str().is_empty() {
            argv.push(cat2("-v ", v.as_str()));
        }
    }
    argv.push("--no-ri".to_owned());
    argv.push("--no-rdoc".to_owned());
    argv.push("--bindir".to_owned());
    argv.push("/usr/bin".to_owned());
    argv.push("-q".to_owned());
    assert(texts(argv@) =~= gem_command(opt_text(*version)));
    argv
}

/// Installs the client as a gem.
pub open spec fn install_gems<H: Host>(m: Kitchen<H>, ruby: Seq<char>, version: Option<Seq<char>>) -> (
    Kitchen<H>,
    Result<(), Seq<char>>,
) {
    let (m1, packages) = ask_install_packages::<H>(m, ruby_packages(ruby));
    match packages {
        Err(e) => (m1, Err(e)),
        Ok(()) => {
            let (m2, gem) = link_program::<H>(m1, "/usr/bin/gem"@, ruby);
            match gem {
                Err(e) => (m2, Err(e)),
                Ok(()) => {
                    let (m3, linked) = link_program::<H>(m2, "/usr/bin/ruby"@, ruby);
                    match linked {
                        Err(e) => (m3, Err(e)),
                        Ok(()) => must_run::<H>(m3, gem_command(version)),
                    }
                },
            }
        },
    }
}

pub fn install_chef_from_gems<H: Host>(host: &mut H, ruby_version: &str, chef_version: &Option<String>) -> (r: Result<
    (),
    String,
>)
    ensures
        (final(host).machine(), unit_result(r)) == install_gems::<H>(
            old(host).machine(),
            ruby_version@,
            opt_text(*chef_version),
        ),
{
    match host.install_packages(&get_ruby_packages(ruby_version)) {
        Ok(()) => {},
        Err(e) => return Err(e),
    }
    match link_program_of(host, "/usr/bin/gem", ruby_version) {
        Ok(()) => {},
        Err(e) => return Err(e),
    }
    match link_program_of(host, "/usr/bin/ruby", ruby_version) {
        Ok(()) => {},
        Err(e) => return Err(e),
    }
    must_run_of(host, &gem_command_of(chef_version))
}

/// Writes a script to a temporary directory and runs it.
pub open spec fn run_script<H: Host>(m: Kitchen<H>, blob: Seq<char>, args: Seq<Seq<char>>, name: Seq<char>) -> (
    Kitchen<H>,
    Result<(), Seq<char>>,
) {
    let (m1, dir) = ask_tempdir::<H>(m);
    match dir {
        Err(e) => (m1, Err(e)),
        Ok(dir) => {
            let script = path_joined(dir, name);
            let (m2, written) = ask_write_file::<H>(m1, script, blob, 0o700);
            match written {
                Err(e) => (m2, Err(e)),
                Ok(()) => must_run::<H>(m2, seq![script] + args),
            }
        },
    }
}

pub fn subp_blob_in_tempfile<H: Host>(host: &mut H, blob: &str, args: &Vec<String>, basename: &str) -> (r: Result<(), String>)
    ensures
        (final(host).machine(), unit_result(r)) == run_script::<H>(
            old(host).machine(),
            blob@,
            texts(args@),
            basename@,
        ),
{
    let dir = match host.tempdir() {
        Ok(dir) => dir,
        Err(e) => return Err(e),
    };
    let script = path_join(dir.as_str(), basename);
    match host.write_file(script.as_str(), blob, 0o700) {
        Ok(()) => {},
        Err(e) => return Err(e),
    }
    let mut command = argv1(script.as_str());
    let mut i: usize = 0;
    assert(texts(args@).take(0) =~= Seq::empty());
    assert(texts(command@) =~= seq![script@] + texts(args@).take(0));
    while i < args.len()
        invariant
            i <= args@.len(),
            texts(command@) == seq![script@] + texts(args@).take(i as int),
        decreases args.len() - i,
    {
        let ghost before = texts(command@);
        command.push(args[i].clone());
        assert(texts(command@) =~= before.push(args@[i as int]@));
        i += 1;
        assert(texts(args@).take(i as int) =~= texts(args@).take(i - 1).push(args@[i - 1]@));
        assert(texts(command@) =~= seq![script@] + texts(args@).take(i as int));
    }
    assert(texts(args@).take(i as int) =~= texts(args@));
    must_run_of(host, &command)
}

pub open spec fn version_args(version: Option<Seq<char>>) -> Seq<Seq<char>> {
    match version {
        Some(v) => seq!["-v"@, v],
        None => Seq::empty(),
    }
}

/// Downloads the installer and runs it.
pub open spec fn install_omnibus<H: Host>(m: Kitchen<H>, url: Seq<char>, retries: int, version: Option<Seq<char>>) -> (
    Kitchen<H>,
    Result<(), Seq<char>>,
) {
    let (m1, content) = ask_readurl::<H>(m, url, retries);
    match content {
        Err(e) => (m1, Err(e)),
        Ok(content) => run_script::<H>(m1, content, version_args(version), "chef-omnibus-install"@),
    }
}

pub fn install_chef_from_omnibus<H: Host>(
    host: &mut H,
    url: Option<String>,
    retries: Option<i64>,
    omnibus_version: &Option<String>,
) -> (r: Result<(), String>)
    ensures
        (final(host).machine(), unit_result(r)) == install_omnibus::<H>(
            old(host).machine(),
            match url {
                Some(u) => u@,
                None => "https://www.chef.io/chef/install.sh"@,
            },
            match retries {
                Some(n) => n as int,
                None => 5,
            },
            opt_text(*omnibus_version),
        ),
{
    let url = match url {
        Some(url) => url,
        None => "https://www.chef.io/chef/install.sh".to_owned(),
    };
    let retries = match retries {
        Some(n) => n,
        None => 5,
    };
    let mut args: Vec<String> = Vec::new();
    if let Some(v) = omnibus_version {
        args.push("-v".to_owned());
        args.push(v.clone());
    }
    assert(texts(args@) =~= version_args(opt_text(*omnibus_version)));
    let content = match host.readurl(url.as_str(), retries) {
        Ok(content) => content,
        Err(e) => return Err(e),
    };
    subp_blob_in_tempfile(host, content.as_str(), &args, "chef-omnibus-install")
}

/// A setting that is a whole number.
pub open spec fn number_at(cfg: Seq<(Seq<char>, Val)>, key: Seq<char>, default: int) -> Result<int, Seq<char>> {
    match shown_at(cfg, key) {
        None => Ok(default),
        Some(text) => match signed(trim(Class::Space, text)) {
            Some(n) => Ok(n),
            None => Err("invalid literal for int() with base 10: "@ + quoted(text)),
        },
    }
}

pub fn option_int(cfg: &Object, key: &str, default: i64) -> (r: Result<i64, String>)
    ensures
        match r {
            Ok(n) => number_at(cfg@, key@, default as int) == Ok::<int, Seq<char>>(n as int),
            Err(e) => number_at(cfg@, key@, default as int) == Err::<int, Seq<char>>(e@),
        },
{
    match cfg_str(cfg, key) {
        None => Ok(default),
        Some(text) => match parse_i64(trim_of(Class::Space, text.as_str()).as_str()) {
            Some(n) => Ok(n),
            None => Err(cat2("invalid literal for int() with base 10: ", repr_str(text.as_str()).as_str())),
        },
    }
}

/// Installs the client; whether it is to be run then. Only a gem is run where
/// nothing is said of it, and an unknown way of installing does nothing but warn.
pub open spec fn install<H: Host>(m: Kitchen<H>, cfg: Seq<(Seq<char>, Val)>) -> (Kitchen<H>, Result<bool, Seq<char>>) {
    let way = shown_or(cfg, "install_type"@, "packages"@);
    if way == "gems"@ {
        let (m1, done) = install_gems::<H>(
            m,
            shown_or(cfg, "ruby_version"@, "1.8"@),
            shown_at(cfg, "version"@),
        );
        (
            m1,
            match done {
                Err(e) => Err(e),
                Ok(()) => Ok(switch(cfg, "exec"@, true)),
            },
        )
    } else if way == "packages"@ {
        let (m1, done) = ask_install_packages::<H>(m, seq!["chef"@]);
        (
            m1,
            match done {
                Err(e) => Err(e),
                Ok(()) => Ok(switch(cfg, "exec"@, false)),
            },
        )
    } else if way == "omnibus"@ {
        match number_at(cfg, "omnibus_url_retries"@, 0) {
            Err(e) => (m, Err(e)),
            Ok(retries) => {
                let (m1, done) = install_omnibus::<H>(
                    m,
                    shown_or(cfg, "omnibus_url"@, "https://www.chef.io/chef/install.sh"@),
                    retries,
                    shown_at(cfg, "omnibus_version"@),
                );
                (
                    m1,
                    match done {
                        Err(e) => Err(e),
                        Ok(()) => Ok(switch(cfg, "exec"@, false)),
                    },
                )
            },
        }
    } else {
        (warned::<H>(m, "Unknown chef install type '"@ + way + "'"@), Ok(false))
    }
}

pub open spec fn flag_result(r: Result<bool, String>) -> Result<bool, Seq<char>> {
    match r {
        Ok(b) => Ok(b),
        Err(e) => Err(e@),
    }
}

pub fn install_chef<H: Host>(host: &mut H, cfg: &Object) -> (r: Result<bool, String>)
    ensures
        (final(host).machine(), flag_result(r)) == install::<H>(old(host).machine(), cfg@),
{
    let way = cfg_str_or(cfg, "install_type", "packages");
    let way = way.as_str();
    if same(way, "gems") {
        let version = cfg_str(cfg, "version");
        let ruby = cfg_str_or(cfg, "ruby_version", "1.8");
        match install_chef_from_gems(host, ruby.as_str(), &version) {
            Ok(()) => Ok(get_bool(cfg, "exec", true)),
            Err(e) => Err(e),
        }
    } else if same(way, "packages") {
        match host.install_packages(&argv1("chef")) {
            Ok(()) => Ok(get_bool(cfg, "exec", false)),
            Err(e) => Err(e),
        }
    } else if same(way, "omnibus") {
        let version = cfg_str(cfg, "omnibus_version");
        let url = cfg_str(cfg, "omnibus_url");
        let retries = match option_int(cfg, "omnibus_url_retries", 0) {
            Ok(n) => n,
            Err(e) => return Err(e),
        };
        match install_chef_from_omnibus(host, url, Some(retries), &version) {
            Ok(()) => Ok(get_bool(cfg, "exec", false)),
            Err(e) => Err(e),
        }
    } else {
        log_warn(host, cat3("Unknown chef install type '", way, "'").as_str());
        Ok(false)
    }
}

// ---------------------------------------------------------------------------
// Running

pub open spec fn default_args() -> Seq<Seq<char>> {
    seq!["-d"@, "-i"@, "1800"@, "-s"@, "20"@]
}

/// The command that runs the client. A text is one argument, whole.
pub open spec fn client_command(cfg: Seq<(Seq<char>, Val)>) -> Seq<Seq<char>> {
    seq!["/usr/bin/chef-client"@] + (match get(cfg, "exec_arguments"@) {
        Some(Val::Array(items)) => Seq::new(items.len(), |i: int| show(items[i])),
        Some(Val::Text(text)) => seq![text],
        _ => default_args(),
    })
}

fn client_command_of(cfg: &Object) -> (r: Vec<String>)
    ensures
        texts(r@) == client_command(cfg@),
{
    let mut cmd = argv1("/usr/bin/chef-client");
    match cfg.get("exec_arguments") {
        Some(Node::Array(items)) => {
            let ghost all = vals(items@);
            let ghost want = Seq::new(all.len(), |i: int| show(all[i]));
            let mut i: usize = 0;
            assert(texts(cmd@) =~= seq!["/usr/bin/chef-client"@] + want.take(0));
            while i < items.len()
                invariant
                    i <= items@.len(),
                    all == vals(items@),
                    want == Seq::new(all.len(), |i: int| show(all[i])),
                    texts(cmd@) == seq!["/usr/bin/chef-client"@] + want.take(i as int),
                decreases items.len() - i,
            {
                assert(all[i as int] == items@[i as int]@);
                let ghost before = texts(cmd@);
                cmd.push(py_str(&items[i]));
                assert(texts(cmd@) =~= before.push(want[i as int]));
                i += 1;
                assert(want.take(i as int) =~= want.take(i - 1).push(want[i - 1]));
                assert(texts(cmd@) =~= seq!["/usr/bin/chef-client"@] + want.take(i as int));
            }
            assert(want.take(i as int) =~= want);
        },
        Some(Node::Text(text)) => {
            cmd.push(text.clone());
            assert(texts(cmd@) =~= client_command(cfg@));
        },
        _ => {
            cmd.push("-d".to_owned());
            cmd.push("-i".to_owned());
            cmd.push("1800".to_owned());
            cmd.push("-s".to_owned());
            cmd.push("20".to_owned());
            assert(texts(cmd@) =~= client_command(cfg@));
        },
    }
    cmd
}

/// Says that the client is run, and warns of arguments for it that cannot be used.
pub open spec fn run_told<H: Host>(m: Kitchen<H>, cfg: Seq<(Seq<char>, Val)>) -> Kitchen<H> {
    let n = logged::<H>(m, "Running chef-client"@);
    match get(cfg, "exec_arguments"@) {
        None => n,
        Some(Val::Array(_)) => n,
        Some(Val::Text(_)) => n,
        Some(other) => warned::<H>(
            n,
            "Unknown type <class '"@ + kind_text(other)
                + "'> provided for chef 'exec_arguments' expected list, tuple, or string"@,
        ),
    }
}

fn tell_run<H: Host>(cfg: &Object, host: &mut H)
    ensures
        final(host).machine() == run_told::<H>(old(host).machine(), cfg@),
{
    log_debug(host, "Running chef-client");
    match cfg.get("exec_arguments") {
        None => {},
        Some(Node::Array(_)) => {},
        Some(Node::Text(_)) => {},
        Some(other) => {
            log_warn(
                host,
                cat3(
                    "Unknown type <class '",
                    kind_name(other).as_str(),
                    "'> provided for chef 'exec_arguments' expected list, tuple, or string",
                ).as_str(),
            );
        },
    }
}

/// Runs the client and, where that is asked for, removes the validation key.
pub open spec fn run_client<H: Host>(m: Kitchen<H>, cfg: Seq<(Seq<char>, Val)>) -> (Kitchen<H>, Result<(), Seq<char>>) {
    let (m1, ran) = must_run::<H>(run_told::<H>(m, cfg), client_command(cfg));
    match ran {
        Err(e) => (m1, Err(e)),
        Ok(()) => if switch(cfg, "delete_validation_post_exec"@, false) {
            let (m2, there) = ask_is_file::<H>(m1, "/etc/chef/validation.pem"@);
            if there {
                ask_unlink::<H>(m2, "/etc/chef/validation.pem"@)
            } else {
                (m2, Ok(()))
            }
        } else {
            (m1, Ok(()))
        },
    }
}

pub fn run_chef<H: Host>(host: &mut H, cfg: &Object) -> (r: Result<(), String>)
    ensures
        (final(host).machine(), unit_result(r)) == run_client::<H>(old(host).machine(), cfg@),
{
    tell_run(cfg, host);
    match must_run_of(host, &client_command_of(cfg)) {
        Ok(()) => post_run_chef(host, cfg),
        Err(e) => Err(e),
    }
}

fn post_run_chef<H: Host>(host: &mut H, cfg: &Object) -> (r: Result<(), String>)
    ensures
        (final(host).machine(), unit_result(r)) == (if switch(cfg@, "delete_validation_post_exec"@, false) {
            let (m2, there) = ask_is_file::<H>(old(host).machine(), "/etc/chef/validation.pem"@);
            if there {
                ask_unlink::<H>(m2, "/etc/chef/validation.pem"@)
            } else {
                (m2, Ok(()))
            }
        } else {
            (old(host).machine(), Ok(()))
        }),
{
    if get_bool(cfg, "delete_validation_post_exec", false) && host.is_file("/etc/chef/validation.pem") {
        return host.unlink("/etc/chef/validation.pem");
    }
    Ok(())
}

// ---------------------------------------------------------------------------
// The module

/// Installs the client unless it is there, and runs it.
pub open spec fn set_up_client<H: Host>(m: Kitchen<H>, cfg: Seq<(Seq<char>, Val)>) -> (Kitchen<H>, Result<(), Seq<char>>) {
    let (m1, there) = ask_is_exe::<H>(m, "/usr/bin/chef-client"@);
    let (m2, run) = if there && !switch(cfg, "force_install"@, false) {
        (m1, Ok(switch(cfg, "exec"@, false)))
    } else {
        install::<H>(m1, cfg)
    };
    match run {
        Err(e) => (m2, Err(e)),
        Ok(run) => if run {
            run_client::<H>(m2, cfg)
        } else {
            (m2, Ok(()))
        },
    }
}

fn install_and_run<H: Host>(host: &mut H, cfg: &Object) -> (r: Result<(), String>)
    ensures
        (final(host).machine(), unit_result(r)) == set_up_client::<H>(old(host).machine(), cfg@),
{
    let force = get_bool(cfg, "force_install", false);
    let there = host.is_exe("/usr/bin/chef-client");
    let run = if there && !force {
        get_bool(cfg, "exec", false)
    } else {
        match install_chef(host, cfg) {
            Ok(run) => run,
            Err(e) => return Err(e),
        }
    };
    if run {
        run_chef(host, cfg)
    } else {
        Ok(())
    }
}

/// What is done with a configuration that is a mapping, once the directories are
/// there: the validation key, the client's configuration, the first boot, and the
/// client.
pub open spec fn configure<H: Host>(m: Kitchen<H>, cfg: Seq<(Seq<char>, Val)>) -> (Kitchen<H>, Result<(), Seq<char>>) {
    let (m1, key) = write_validation::<H>(m, cfg);
    match key {
        Err(e) => (m1, Err(e)),
        Ok(()) => {
            let (m2, rendered) = write_client_rb::<H>(m1, cfg);
            match rendered {
                Err(e) => (m2, Err(e)),
                Ok(()) => {
                    let (m3, written) = write_first_boot::<H>(m2, cfg);
                    match written {
                        Err(e) => (m3, Err(e)),
                        Ok(()) => set_up_client::<H>(m3, cfg),
                    }
                },
            }
        },
    }
}

/// Sets up chef from what stands under its key.
pub open spec fn set_up_block<H: Host>(m: Kitchen<H>, block: Val) -> (Kitchen<H>, Result<(), Seq<char>>) {
    match wanted_dirs(block) {
        Err(e) => (m, Err(e)),
        Ok(dirs) => {
            let (m1, made) = make_dirs::<H>(m, dirs);
            match made {
                Err(e) => (m1, Err(e)),
                Ok(()) => {
                    let (m2, moved) = migrate_all::<H>(m1);
                    match moved {
                        Err(e) => (m2, Err(e)),
                        Ok(()) => match block {
                            Val::Object(cfg) => configure::<H>(m2, cfg),
                            _ => (m2, Err("'"@ + kind_text(block) + "' object has no attribute 'get'"@)),
                        },
                    }
                },
            }
        },
    }
}

/// What is said where there is no configuration.
pub open spec fn no_key_text(name: Seq<char>) -> Seq<char> {
    "Skipping module named "@ + name + ", no 'chef' key in configuration"@
}

/// Sets up chef, where the configuration speaks of it.
pub open spec fn set_up<H: Host>(m: Kitchen<H>, name: Seq<char>, cfg: Seq<(Seq<char>, Val)>) -> (
    Kitchen<H>,
    Result<(), Seq<char>>,
) {
    match get(cfg, "chef"@) {
        None => (logged::<H>(m, no_key_text(name)), Ok(())),
        Some(block) => set_up_block::<H>(m, block),
    }
}

/// Sets up chef, where the configuration speaks of it.
pub fn handle_with<H: Host>(name: &str, cfg: &Object, host: &mut H) -> (r: Result<(), String>)
    ensures
        (final(host).machine(), unit_result(r)) == set_up::<H>(old(host).machine(), name@, cfg@),
{
    let block = match cfg.get("chef") {
        Some(block) => block,
        None => {
            log_debug(host, cat3("Skipping module named ", name, ", no 'chef' key in configuration").as_str());
            return Ok(());
        },
    };
    let dirs = match wanted_dirs_of(block) {
        Ok(dirs) => dirs,
        Err(e) => return Err(e),
    };
    match make_dirs_of(host, &dirs) {
        Ok(()) => {},
        Err(e) => return Err(e),
    }
    match migrate_chef_config_dirs(host) {
        Ok(()) => {},
        Err(e) => return Err(e),
    }
    let chef_cfg = match block {
        Node::Object(chef_cfg) => chef_cfg,
        other => return Err(cat3("'", kind_name(other).as_str(), "' object has no attribute 'get'")),
    };
    match write_validation_key(host, chef_cfg) {
        Ok(()) => {},
        Err(e) => return Err(e),
    }
    match render_client_rb(host, chef_cfg) {
        Ok(()) => {},
        Err(e) => return Err(e),
    }
    match write_firstboot_json(host, chef_cfg) {
        Ok(()) => {},
        Err(e) => return Err(e),
    }
    install_and_run(host, chef_cfg)
}

// ---------------------------------------------------------------------------
// Laws

/// Without a configuration all that happens is a line in the log that says so.
pub proof fn no_configuration_asks_nothing<H: Host>(m: Kitchen<H>, name: Seq<char>, cfg: Seq<(Seq<char>, Val)>)
    requires
        get(cfg, "chef"@) is None,
    ensures
        set_up::<H>(m, name, cfg) == (logged::<H>(m, no_key_text(name)), Ok::<(), Seq<char>>(())),
{
}

/// Whatever directories are configured, that of the settings is made, and it is the
/// last.
pub proof fn the_directory_of_the_settings_is_made(block: Val)
    requires
        wanted_dirs(block) is Ok,
    ensures
        wanted_dirs(block)->Ok_0.len() > 0,
        wanted_dirs(block)->Ok_0.last() == Val::Text("/etc/chef"@),
{
}

/// A directory that cannot be made ends the set-up: nothing is asked after it.
pub proof fn a_missing_directory_ends_it<H: Host>(m: Kitchen<H>, block: Val)
    requires
        wanted_dirs(block) is Ok,
        make_dirs::<H>(m, wanted_dirs(block)->Ok_0).1 is Err,
    ensures
        set_up_block::<H>(m, block) == make_dirs::<H>(m, wanted_dirs(block)->Ok_0),
{
}

/// The parent of a path is itself a directory's name without a slash at its end,
/// unless it is made of slashes alone.
pub proof fn a_parent_ends_without_slash(path: Seq<char>)
    requires
        posix_parent(path).len() > 0,
        posix_parent(path).last() == '/',
    ensures
        forall|i: int| 0 <= i < posix_parent(path).len() ==> #[trigger] posix_parent(path)[i] == '/',
{
    let head = match rfind(path, '/') {
        Some(i) => path.take(i + 1),
        None => Seq::empty(),
    };
    trimmed_end(head);
}

proof fn trimmed_end(s: Seq<char>)
    ensures
        trim_end(Class::One('/'), s).len() > 0 ==> trim_end(Class::One('/'), s).last() != '/',
        trim_end(Class::One('/'), s).len() == 0 ==> forall|i: int| 0 <= i < s.len() ==> #[trigger] s[i] == '/',
    decreases s.len(),
{
    if s.len() > 0 && s.last() == '/' {
        trimmed_end(s.drop_last());
        assert forall|i: int|
            trim_end(Class::One('/'), s).len() == 0 && 0 <= i < s.len() implies #[trigger] s[i] == '/' by {
            if i < s.len() - 1 {
                assert(s[i] == s.drop_last()[i]);
            }
        }
    }
}

}
