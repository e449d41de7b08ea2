//! The files of sources, the keys for them, and apt's own configuration.

use vstd::prelude::*;

use crate::case::{lowercase, to_lower};
use crate::cc::apt_configure::host::{
    ask_load_template, ask_path_exists, ask_read_file, ask_render, ask_report, ask_template_exists,
    ask_templates_dir, informed, log_debug, log_info, log_warn, logged, warned, FileAction, FileSpec, Host, Site,
};
use crate::cc::apt_configure::suites::{
    disable_suites, form_told, has_stanzas, is_deb822_sources_format, without_some,
};
use crate::machine::Level;
use crate::show::{py_str, py_truthy, show, truthy};
use crate::space::{feed_lines, feed_lines_of, trim, trim_of, Class};
use crate::text::{
    cat2, cat3, cat4, head, head_of, join, join_with, opt_text, same, split_at_first, split_once, texts,
};
use crate::value::{get, put, vals, Node, Object, Val};

verus! {

pub const APT_LOCAL_KEYS: &'static str = "/etc/apt/trusted.gpg";

pub const APT_TRUSTED_GPG_DIR: &'static str = "/etc/apt/trusted.gpg.d/";

pub const CLOUD_INIT_GPG_DIR: &'static str = "/etc/apt/cloud-init.gpg.d/";

/// What is left in place of a file of lines that gave way to one of stanzas.
pub const UBUNTU_DEFAULT_APT_SOURCES_LIST: &'static str =
    "# Ubuntu sources have moved to the /etc/apt/sources.list.d/ubuntu.sources\n# file, which uses the deb822 format. Use deb822-formatted .sources files\n# to manage package sources in the /etc/apt/sources.list.d/ directory.\n# See the sources.list(5) manual page for details.\n";

// ---------------------------------------------------------------------------
// Where apt looks

/// Where apt reads its sources from.
#[derive(Debug, Clone, PartialEq, Eq)]
pub struct AptPaths {
    /// The file of lines.
    pub sourcelist: String,
    /// The directory of further files, with a slash behind it.
    pub sourceparts: String,
}

impl Default for AptPaths {
    fn default() -> (r: Self)
        ensures
            r.sourcelist@ == "/etc/apt/sources.list"@,
            r.sourceparts@ == "/etc/apt/sources.list.d/"@,
    {
        AptPaths {
            sourcelist: "/etc/apt/sources.list".to_owned(),
            sourceparts: "/etc/apt/sources.list.d/".to_owned(),
        }
    }
}

/// The name and the value on a line of apt's configuration.
pub open spec fn setting_on(line: Seq<char>) -> Option<(Seq<char>, Seq<char>)> {
    match split_once(line, " \""@) {
        Some((name, rest)) => Some((trim(Class::Space, name), head(rest, "\""@))),
        None => None,
    }
}

/// The value that the last line for a name gives it.
pub open spec fn last_setting(lines: Seq<Seq<char>>, name: Seq<char>, default: Seq<char>) -> Seq<char>
    decreases lines.len(),
{
    if lines.len() == 0 {
        default
    } else {
        match setting_on(lines.last()) {
            Some((n, value)) => if n == name {
                value
            } else {
                last_setting(lines.drop_last(), name, default)
            },
            None => last_setting(lines.drop_last(), name, default),
        }
    }
}

/// The file and the directory that apt's configuration names.
pub open spec fn apt_paths(dump: Option<Seq<char>>) -> (Seq<char>, Seq<char>) {
    match dump {
        None => ("/etc/apt/sources.list"@, "/etc/apt/sources.list.d/"@),
        Some(text) => {
            let lines = feed_lines(text);
            let etc = last_setting(lines, "Dir::Etc"@, "etc/apt"@);
            (
                "/"@ + etc + "/"@ + last_setting(lines, "Dir::Etc::sourcelist"@, "sources.list"@),
                "/"@ + etc + "/"@ + last_setting(lines, "Dir::Etc::sourceparts"@, "sources.list.d"@) + "/"@,
            )
        },
    }
}

pub fn get_apt_cfg(dump: Option<&str>) -> (r: AptPaths)
    ensures
        (r.sourcelist@, r.sourceparts@) == apt_paths(
            match dump {
                Some(s) => Some(s@),
                None => None,
            },
        ),
{
    let dump = match dump {
        Some(dump) => dump,
        None => return AptPaths::default(),
    };
    let lines = feed_lines_of(dump);
    let ghost all = texts(lines@);
    let mut etc = "etc/apt".to_owned();
    let mut sourcelist = "sources.list".to_owned();
    let mut sourceparts = "sources.list.d".to_owned();
    proof {
        reveal_strlit("Dir::Etc");
        reveal_strlit("Dir::Etc::sourcelist");
        reveal_strlit("Dir::Etc::sourceparts");
        assert("Dir::Etc"@.len() == 8);
        assert("Dir::Etc::sourcelist"@.len() == 20);
        assert("Dir::Etc::sourceparts"@.len() == 21);
    }
    let mut i: usize = 0;
    assert(all.take(0) =~= Seq::empty());
    while i < lines.len()
        invariant
            i <= lines@.len(),
            all == texts(lines@),
            "Dir::Etc"@ != "Dir::Etc::sourcelist"@,
            "Dir::Etc"@ != "Dir::Etc::sourceparts"@,
            "Dir::Etc::sourcelist"@ != "Dir::Etc::sourceparts"@,
            etc@ == last_setting(all.take(i as int), "Dir::Etc"@, "etc/apt"@),
            sourcelist@ == last_setting(all.take(i as int), "Dir::Etc::sourcelist"@, "sources.list"@),
            sourceparts@ == last_setting(all.take(i as int), "Dir::Etc::sourceparts"@, "sources.list.d"@),
        decreases lines.len() - i,
    {
        assert(all[i as int] == lines@[i as int]@);
        assert(all.take(i + 1).drop_last() =~= all.take(i as int));
        if let Some((name, rest)) = split_at_first(lines[i].as_str(), " \"") {
            let name = trim_of(Class::Space, name.as_str());
            let value = head_of(rest.as_str(), "\"");
            if same(name.as_str(), "Dir::Etc") {
                etc = value;
            } else if same(name.as_str(), "Dir::Etc::sourcelist") {
                sourcelist = value;
            } else if same(name.as_str(), "Dir::Etc::sourceparts") {
                sourceparts = value;
            }
        }
        i += 1;
    }
    assert(all.take(i as int) =~= all);
    AptPaths {
        sourcelist: cat4("/", etc.as_str(), "/", sourcelist.as_str()),
        sourceparts: crate::text::cat5("/", etc.as_str(), "/", sourceparts.as_str(), "/"),
    }
}

// ---------------------------------------------------------------------------
// Proxies and free configuration

/// The line for a proxy, where one is configured.
pub open spec fn proxy_line(cfg: Seq<(Seq<char>, Val)>, key: Seq<char>, name: Seq<char>) -> Seq<Seq<char>> {
    match get(cfg, key) {
        Some(v) => if truthy(v) {
            seq![name + " \""@ + show(v) + "\";"@]
        } else {
            Seq::empty()
        },
        None => Seq::empty(),
    }
}

/// The lines for all proxies.
pub open spec fn proxy_lines(cfg: Seq<(Seq<char>, Val)>) -> Seq<Seq<char>> {
    proxy_line(cfg, "proxy"@, "Acquire::http::Proxy"@) + proxy_line(cfg, "http_proxy"@, "Acquire::http::Proxy"@)
        + proxy_line(cfg, "ftp_proxy"@, "Acquire::ftp::Proxy"@) + proxy_line(
        cfg,
        "https_proxy"@,
        "Acquire::https::Proxy"@,
    )
}

fn add_proxy(cfg: &Object, key: &str, name: &str, out: &mut Vec<String>)
    ensures
        texts(final(out)@) == texts(old(out)@) + proxy_line(cfg@, key@, name@),
{
    let ghost before = texts(out@);
    if let Some(v) = cfg.get(key) {
        if py_truthy(v) {
            out.push(cat4(name, " \"", py_str(v).as_str(), "\";"));
            assert(texts(out@) =~= before.push(name@ + " \""@ + show(v@) + "\";"@));
        }
    }
    assert(texts(out@) =~= before + proxy_line(cfg@, key@, name@));
}

/// A file that is written where there is something to write, and removed where it
/// is there and there is not.
pub open spec fn written_or_removed<H: Host>(
    m: Site<H>,
    kind: Seq<char>,
    path: Seq<char>,
    content: Option<Seq<char>>,
) -> (Site<H>, Seq<FileSpec>) {
    match content {
        Some(content) => (
            logged::<H>(m, "write apt "@ + kind + " info to "@ + path),
            seq![FileSpec::Write { path, content, mode: None }],
        ),
        None => {
            let (m1, there) = ask_path_exists::<H>(m, path);
            if there {
                (
                    logged::<H>(m1, "no apt "@ + kind + " configured, removed "@ + path),
                    seq![FileSpec::Remove(path)],
                )
            } else {
                (m1, Seq::empty())
            }
        },
    }
}

/// Changes to files.
pub open spec fn file_specs(v: Seq<FileAction>) -> Seq<FileSpec> {
    Seq::new(v.len(), |i: int| v[i]@)
}

fn write_or_remove<H: Host>(host: &mut H, kind: &str, path: &str, content: Option<String>, out: &mut Vec<FileAction>)
    ensures
        ({
            let (m, actions) = written_or_removed::<H>(old(host).machine(), kind@, path@, opt_text(content));
            &&& final(host).machine() == m
            &&& file_specs(final(out)@) == file_specs(old(out)@) + actions
        }),
{
    let ghost before = file_specs(out@);
    match content {
        Some(content) => {
            log_debug(host, cat4("write apt ", kind, " info to ", path).as_str());
            let action = FileAction::Write { path: path.to_owned(), content, mode: None };
            let ghost a = action@;
            out.push(action);
            assert(file_specs(out@) =~= before + seq![a]);
        },
        None => {
            if host.path_exists(path) {
                log_debug(host, cat4("no apt ", kind, " configured, removed ", path).as_str());
                out.push(FileAction::Remove(path.to_owned()));
                assert(file_specs(out@) =~= before + seq![FileSpec::Remove(path@)]);
            } else {
                assert(file_specs(out@) =~= before + Seq::<FileSpec>::empty());
            }
        },
    }
}

/// The text of the file of proxies, where there are any.
pub open spec fn proxy_text(cfg: Seq<(Seq<char>, Val)>) -> Option<Seq<char>> {
    if proxy_lines(cfg).len() == 0 {
        None
    } else {
        Some(join(proxy_lines(cfg), "\n"@) + "\n"@)
    }
}

/// The text of the file of free configuration, where there is any.
pub open spec fn conf_text(cfg: Seq<(Seq<char>, Val)>) -> Option<Seq<char>> {
    match get(cfg, "conf"@) {
        Some(v) => if truthy(v) {
            Some(show(v))
        } else {
            None
        },
        None => None,
    }
}

/// The changes to apt's own configuration.
pub open spec fn config_actions<H: Host>(
    m: Site<H>,
    cfg: Seq<(Seq<char>, Val)>,
    proxy_file: Seq<char>,
    config_file: Seq<char>,
) -> (Site<H>, Seq<FileSpec>) {
    let (m1, proxies) = written_or_removed::<H>(m, "proxy"@, proxy_file, proxy_text(cfg));
    let (m2, conf) = written_or_removed::<H>(m1, "config"@, config_file, conf_text(cfg));
    (m2, proxies + conf)
}

pub fn plan_apt_config<H: Host>(cfg: &Object, proxy_fname: &str, config_fname: &str, host: &mut H) -> (r: Vec<FileAction>)
    ensures
        (final(host).machine(), file_specs(r@)) == config_actions::<H>(
            old(host).machine(),
            cfg@,
            proxy_fname@,
            config_fname@,
        ),
{
    let mut proxies: Vec<String> = Vec::new();
    assert(texts(proxies@) =~= Seq::empty());
    add_proxy(cfg, "proxy", "Acquire::http::Proxy", &mut proxies);
    add_proxy(cfg, "http_proxy", "Acquire::http::Proxy", &mut proxies);
    add_proxy(cfg, "ftp_proxy", "Acquire::ftp::Proxy", &mut proxies);
    add_proxy(cfg, "https_proxy", "Acquire::https::Proxy", &mut proxies);
    assert(texts(proxies@) =~= proxy_lines(cfg@));
    let content = if proxies.len() == 0 {
        None
    } else {
        Some(cat2(join_with(&proxies, "\n").as_str(), "\n"))
    };
    let conf = match cfg.get("conf") {
        Some(v) => if py_truthy(v) {
            Some(py_str(v))
        } else {
            None
        },
        None => None,
    };
    let mut actions: Vec<FileAction> = Vec::new();
    assert(file_specs(actions@) =~= Seq::empty());
    write_or_remove(host, "proxy", proxy_fname, content, &mut actions);
    let ghost first = written_or_removed::<H>(old(host).machine(), "proxy"@, proxy_fname@, proxy_text(cfg@)).1;
    assert(file_specs(actions@) =~= first);
    write_or_remove(host, "config", config_fname, conf, &mut actions);
    actions
}

// ---------------------------------------------------------------------------
// The main file of sources

/// A list's items as they are printed.
pub open spec fn shown_items(cfg: Seq<(Seq<char>, Val)>, key: Seq<char>) -> Seq<Seq<char>> {
    match get(cfg, key) {
        Some(Val::Array(items)) => Seq::new(items.len(), |i: int| show(items[i])),
        _ => Seq::empty(),
    }
}

fn string_list(cfg: &Object, key: &str) -> (r: Vec<String>)
    ensures
        texts(r@) == shown_items(cfg@, key@),
{
    let mut out: Vec<String> = Vec::new();
    if let Some(Node::Array(items)) = cfg.get(key) {
        let ghost all = vals(items@);
        let mut i: usize = 0;
        while i < items.len()
            invariant
                i <= items@.len(),
                all == vals(items@),
                texts(out@) == Seq::new(i as nat, |j: int| show(all[j])),
            decreases items.len() - i,
        {
            assert(all[i as int] == items@[i as int]@);
            let ghost before = texts(out@);
            out.push(py_str(&items[i]));
            assert(texts(out@) =~= before.push(show(all[i as int])));
            i += 1;
            assert(texts(out@) =~= Seq::new(i as nat, |j: int| show(all[j])));
        }
        assert(texts(out@) =~= Seq::new(all.len(), |j: int| show(all[j])));
    } else {
        assert(texts(out@) =~= Seq::empty());
    }
    out
}

/// Parameters with the entries of a mapping set.
pub open spec fn with_all(params: Seq<(Seq<char>, Val)>, more: Seq<(Seq<char>, Val)>) -> Seq<(Seq<char>, Val)>
    decreases more.len(),
{
    if more.len() == 0 {
        params
    } else {
        put(with_all(params, more.drop_last()), more.last().0, more.last().1)
    }
}

/// Parameters with mirrors set, each under its name and under that in lower case.
pub open spec fn with_mirrors(params: Seq<(Seq<char>, Val)>, mirrors: Seq<(Seq<char>, Val)>) -> Seq<(Seq<char>, Val)>
    decreases mirrors.len(),
{
    if mirrors.len() == 0 {
        params
    } else {
        let (name, v) = mirrors.last();
        put(put(with_mirrors(params, mirrors.drop_last()), name, v), lowercase(name), v)
    }
}

/// The parameters of the template for the sources.
pub open spec fn sources_params(
    release: Seq<char>,
    mirrors: Seq<(Seq<char>, Val)>,
    keys: Seq<(Seq<char>, Val)>,
) -> Seq<(Seq<char>, Val)> {
    let base = put(put(Seq::empty(), "RELEASE"@, Val::Text(release)), "codename"@, Val::Text(release));
    with_mirrors(with_all(base, keys), mirrors)
}

fn sources_params_of(release: &str, mirrors: &Object, keys: &Object) -> (r: Object)
    ensures
        r@ == sources_params(release@, mirrors@, keys@),
{
    let mut params = Object::new();
    params.insert("RELEASE", Node::text(release));
    params.insert("codename", Node::text(release));
    let ghost base = params@;
    let mut i: usize = 0;
    assert(keys@.take(0) =~= Seq::empty());
    while i < keys.len()
        invariant
            i <= keys@.len(),
            params@ == with_all(base, keys@.take(i as int)),
        decreases keys@.len() - i,
    {
        params.insert(keys.key_at(i).as_str(), keys.value_at(i).clone());
        i += 1;
        assert(keys@.take(i as int).drop_last() =~= keys@.take(i - 1));
    }
    assert(keys@.take(i as int) =~= keys@);
    let ghost more = params@;
    let mut k: usize = 0;
    assert(mirrors@.take(0) =~= Seq::empty());
    while k < mirrors.len()
        invariant
            k <= mirrors@.len(),
            params@ == with_mirrors(more, mirrors@.take(k as int)),
        decreases mirrors@.len() - k,
    {
        let name = mirrors.key_at(k).as_str();
        params.insert(name, mirrors.value_at(k).clone());
        params.insert(to_lower(name).as_str(), mirrors.value_at(k).clone());
        k += 1;
        assert(mirrors@.take(k as int).drop_last() =~= mirrors@.take(k - 1));
    }
    assert(mirrors@.take(k as int) =~= mirrors@);
    params
}

/// The text of a template. One that is not there is warned of.
pub open spec fn template_text<H: Host>(m: Site<H>, name: Seq<char>) -> (Site<H>, Option<Seq<char>>) {
    let (m1, there) = ask_template_exists::<H>(m, name);
    if there {
        ask_load_template::<H>(m1, name)
    } else {
        let (m2, dir) = ask_templates_dir::<H>(m1);
        (
            ask_report::<H>(
                m2,
                Level::Warning,
                "cloud.py"@,
                "No template found in "@ + dir + " for template named "@ + name,
            ),
            None,
        )
    }
}

fn template_text_of<H: Host>(name: &str, host: &mut H) -> (r: Option<String>)
    ensures
        (final(host).machine(), opt_text(r)) == template_text::<H>(old(host).machine(), name@),
{
    if host.template_exists(name) {
        return host.load_template(name);
    }
    let dir = host.templates_dir();
    host.report(
        Level::Warning,
        "cloud.py",
        cat4("No template found in ", dir.as_str(), " for template named ", name).as_str(),
    );
    None
}

/// The template for the sources: the configured one, or the distribution's, or the
/// general one.
pub open spec fn sources_template<H: Host>(m: Site<H>, cfg: Seq<(Seq<char>, Val)>, distro: Seq<char>, deb822: bool) -> (
    Site<H>,
    Option<Seq<char>>,
) {
    match configured_template(cfg) {
        Some(text) => (m, Some(text)),
        None => {
            let suffix = if deb822 {
                ".deb822"@
            } else {
                ""@
            };
            let m0 = informed::<H>(m, "No custom template provided, fall back to builtin"@);
            let (m1, text) = template_text::<H>(m0, "sources.list."@ + distro + suffix);
            match text {
                Some(text) => (m1, Some(text)),
                None => template_text::<H>(m1, "sources.list"@),
            }
        },
    }
}

pub open spec fn configured_template(cfg: Seq<(Seq<char>, Val)>) -> Option<Seq<char>> {
    match get(cfg, "sources_list"@) {
        Some(v) => if truthy(v) {
            Some(show(v))
        } else {
            None
        },
        None => None,
    }
}

fn sources_template_of<H: Host>(cfg: &Object, distro: &str, deb822: bool, host: &mut H) -> (r: Option<String>)
    ensures
        (final(host).machine(), opt_text(r)) == sources_template::<H>(old(host).machine(), cfg@, distro@, deb822),
{
    if let Some(v) = cfg.get("sources_list") {
        if py_truthy(v) {
            return Some(py_str(v));
        }
    }
    let suffix = if deb822 {
        ".deb822"
    } else {
        ""
    };
    log_info(host, "No custom template provided, fall back to builtin");
    match template_text_of(cat3("sources.list.", distro, suffix).as_str(), host) {
        Some(text) => Some(text),
        None => template_text_of("sources.list", host),
    }
}

/// The file that sources are written to where nothing else is known of them.
pub open spec fn usual_target(deb822: bool, list: Seq<char>, stanza_file: Seq<char>) -> Seq<char> {
    if deb822 {
        stanza_file
    } else {
        list
    }
}

/// The lines that are written about the form of sources: that a file was chosen for
/// it.
pub open spec fn target_told<H: Host>(
    m: Site<H>,
    template: Seq<char>,
    rendered: Seq<char>,
    deb822: bool,
    list: Seq<char>,
    stanza_file: Seq<char>,
) -> Site<H> {
    if template.len() == 0 {
        m
    } else {
        let m1 = form_told::<H>(m, rendered);
        if !has_stanzas(rendered) {
            logged::<H>(m1, "Provided 'sources_list' user-data is not deb822 format, fallback to "@ + list)
        } else if usual_target(deb822, list, stanza_file) == list {
            logged::<H>(m1, "Provided 'sources_list' user-data is deb822 format, writing to "@ + stanza_file)
        } else {
            m1
        }
    }
}

/// The file that sources are written to, which their form decides: stanzas never
/// go to the file of lines, nor lines to that of stanzas.
pub open spec fn sources_target(
    template: Seq<char>,
    rendered: Seq<char>,
    deb822: bool,
    list: Seq<char>,
    stanza_file: Seq<char>,
) -> Seq<char> {
    let first = usual_target(deb822, list, stanza_file);
    if template.len() == 0 {
        first
    } else if !has_stanzas(rendered) {
        list
    } else if first == list {
        stanza_file
    } else {
        first
    }
}

/// What becomes of the file of lines where there is one of stanzas.
pub open spec fn list_given_up(list: Seq<char>, existing: Option<Seq<char>>, distro: Seq<char>) -> Seq<FileSpec> {
    match existing {
        None => Seq::empty(),
        Some(text) => if distro != "ubuntu"@ {
            seq![FileSpec::Remove(list)]
        } else if text != UBUNTU_DEFAULT_APT_SOURCES_LIST@ {
            seq![FileSpec::Write { path: list, content: UBUNTU_DEFAULT_APT_SOURCES_LIST@, mode: None }]
        } else {
            Seq::empty()
        },
    }
}

/// That the file of lines gives way is told.
pub open spec fn giving_up_told<H: Host>(
    m: Site<H>,
    list: Seq<char>,
    existing: Option<Seq<char>>,
    distro: Seq<char>,
) -> Site<H> {
    match existing {
        None => m,
        Some(text) => if distro != "ubuntu"@ {
            informed::<H>(m, "Removing "@ + list + " to favor deb822 source format"@)
        } else if text != UBUNTU_DEFAULT_APT_SOURCES_LIST@ {
            informed::<H>(m, "Replacing "@ + list + " to favor deb822 source format"@)
        } else {
            m
        },
    }
}

/// The changes for the sources, once the template is filled in.
pub open spec fn rendered_sources<H: Host>(
    m: Site<H>,
    cfg: Seq<(Seq<char>, Val)>,
    template: Seq<char>,
    rendered: Seq<char>,
    release: Seq<char>,
    distro: Seq<char>,
    deb822: bool,
    paths: (Seq<char>, Seq<char>),
) -> (Site<H>, Result<Seq<FileSpec>, Seq<char>>) {
    let stanza_file = paths.1 + distro + ".sources"@;
    let target = sources_target(template, rendered, deb822, paths.0, stanza_file);
    let m0 = target_told::<H>(m, template, rendered, deb822, paths.0, stanza_file);
    let (m1, text) = without_some::<H>(m0, shown_items(cfg, "disable_suites"@), rendered, release);
    match text {
        Err(e) => (m1, Err(e)),
        Ok(text) => {
            let write = seq![FileSpec::Write { path: target, content: text, mode: Some(0o644) }];
            if target == stanza_file {
                let (m2, existing) = ask_read_file::<H>(m1, paths.0);
                (
                    giving_up_told::<H>(m2, paths.0, existing, distro),
                    Ok(write + list_given_up(paths.0, existing, distro)),
                )
            } else {
                (m1, Ok(write))
            }
        },
    }
}

/// The changes for the sources. Without a template there are none.
pub open spec fn sources_actions<H: Host>(
    m: Site<H>,
    cfg: Seq<(Seq<char>, Val)>,
    release: Seq<char>,
    mirrors: Seq<(Seq<char>, Val)>,
    distro: Seq<char>,
    keys: Seq<(Seq<char>, Val)>,
    deb822: bool,
    paths: (Seq<char>, Seq<char>),
) -> (Site<H>, Result<Seq<FileSpec>, Seq<char>>) {
    let (m1, template) = sources_template::<H>(m, cfg, distro, deb822);
    match template {
        None => (
            warned::<H>(
                m1,
                "No template found, not rendering "@ + usual_target(
                    deb822,
                    paths.0,
                    paths.1 + distro + ".sources"@,
                ),
            ),
            Ok(Seq::empty()),
        ),
        Some(template) => {
            let (m2, rendered) = ask_render::<H>(m1, template, sources_params(release, mirrors, keys));
            match rendered {
                Err(e) => (m2, Err(e)),
                Ok(rendered) => rendered_sources::<H>(m2, cfg, template, rendered, release, distro, deb822, paths),
            }
        },
    }
}

pub open spec fn files_result(r: Result<Vec<FileAction>, String>) -> Result<Seq<FileSpec>, Seq<char>> {
    match r {
        Ok(v) => Ok(file_specs(v@)),
        Err(e) => Err(e@),
    }
}

fn give_up_list<H: Host>(
    list: &str,
    existing: &Option<String>,
    distro: &str,
    out: &mut Vec<FileAction>,
    host: &mut H,
)
    ensures
        final(host).machine() == giving_up_told::<H>(old(host).machine(), list@, opt_text(*existing), distro@),
        file_specs(final(out)@) == file_specs(old(out)@) + list_given_up(list@, opt_text(*existing), distro@),
{
    let ghost before = file_specs(out@);
    if let Some(text) = existing {
        if !same(distro, "ubuntu") {
            log_info(host, cat3("Removing ", list, " to favor deb822 source format").as_str());
            out.push(FileAction::Remove(list.to_owned()));
            assert(file_specs(out@) =~= before + seq![FileSpec::Remove(list@)]);
        } else if !same(text.as_str(), UBUNTU_DEFAULT_APT_SOURCES_LIST) {
            log_info(host, cat3("Replacing ", list, " to favor deb822 source format").as_str());
            out.push(
                FileAction::Write {
                    path: list.to_owned(),
                    content: UBUNTU_DEFAULT_APT_SOURCES_LIST.to_owned(),
                    mode: None,
                },
            );
            assert(file_specs(out@) =~= before + list_given_up(list@, opt_text(*existing), distro@));
        }
    }
    assert(file_specs(out@) =~= before + list_given_up(list@, opt_text(*existing), distro@));
}

/// The changes for the sources, once the template is filled in.
pub fn place_sources<H: Host>(
    cfg: &Object,
    template: &str,
    rendered: &str,
    release: &str,
    distro: &str,
    deb822: bool,
    apt_paths: &AptPaths,
    host: &mut H,
) -> (r: Result<Vec<FileAction>, String>)
    ensures
        (final(host).machine(), files_result(r)) == rendered_sources::<H>(
            old(host).machine(),
            cfg@,
            template@,
            rendered@,
            release@,
            distro@,
            deb822,
            (apt_paths.sourcelist@, apt_paths.sourceparts@),
        ),
{
    let list = apt_paths.sourcelist.as_str();
    let stanza_file = cat3(apt_paths.sourceparts.as_str(), distro, ".sources");
    let stanza_file = stanza_file.as_str();
    let first = if deb822 {
        stanza_file
    } else {
        list
    };
    let target = if template.is_empty() {
        first
    } else if !is_deb822_sources_format(rendered, host) {
        log_debug(
            host,
            cat2("Provided 'sources_list' user-data is not deb822 format, fallback to ", list).as_str(),
        );
        list
    } else if same(first, list) {
        log_debug(
            host,
            cat2("Provided 'sources_list' user-data is deb822 format, writing to ", stanza_file).as_str(),
        );
        stanza_file
    } else {
        first
    };
    let text = match disable_suites(&string_list(cfg, "disable_suites"), rendered, release, host) {
        Ok(text) => text,
        Err(e) => return Err(e),
    };
    let ghost write = FileSpec::Write { path: target@, content: text@, mode: Some(0o644) };
    let mut actions: Vec<FileAction> = Vec::new();
    actions.push(FileAction::Write { path: target.to_owned(), content: text, mode: Some(0o644) });
    assert(file_specs(actions@) =~= seq![write]);
    if same(target, stanza_file) {
        let existing = host.read_file(list);
        give_up_list(list, &existing, distro, &mut actions, host);
    }
    Ok(actions)
}

pub fn plan_sources_list<H: Host>(
    cfg: &Object,
    release: &str,
    mirrors: &Object,
    distro: &str,
    keys: &Object,
    deb822: bool,
    apt_paths: &AptPaths,
    host: &mut H,
) -> (r: Result<Vec<FileAction>, String>)
    ensures
        (final(host).machine(), files_result(r)) == sources_actions::<H>(
            old(host).machine(),
            cfg@,
            release@,
            mirrors@,
            distro@,
            keys@,
            deb822,
            (apt_paths.sourcelist@, apt_paths.sourceparts@),
        ),
{
    let params = sources_params_of(release, mirrors, keys);
    let template = match sources_template_of(cfg, distro, deb822, host) {
        Some(template) => template,
        None => {
            let stanza_file = cat3(apt_paths.sourceparts.as_str(), distro, ".sources");
            let target = if deb822 {
                stanza_file.as_str()
            } else {
                apt_paths.sourcelist.as_str()
            };
            log_warn(host, cat2("No template found, not rendering ", target).as_str());
            let none: Vec<FileAction> = Vec::new();
            assert(file_specs(none@) =~= Seq::empty());
            return Ok(none);
        },
    };
    match host.render(template.as_str(), &params) {
        Ok(rendered) => place_sources(
            cfg,
            template.as_str(),
            rendered.as_str(),
            release,
            distro,
            deb822,
            apt_paths,
            host,
        ),
        Err(e) => Err(e),
    }
}

// ---------------------------------------------------------------------------
// Laws

/// Where there is a template, the form of what it gives decides the file: stanzas
/// never go to the file of lines, nor lines to that of stanzas.
pub proof fn form_decides_the_file(
    template: Seq<char>,
    rendered: Seq<char>,
    deb822: bool,
    list: Seq<char>,
    stanza_file: Seq<char>,
)
    requires
        template.len() > 0,
    ensures
        has_stanzas(rendered) ==> sources_target(template, rendered, deb822, list, stanza_file) == stanza_file,
        !has_stanzas(rendered) ==> sources_target(template, rendered, deb822, list, stanza_file) == list,
{
}

/// A configuration without proxies and without free configuration writes no file:
/// it only removes what is there.
pub proof fn empty_configuration_only_removes<H: Host>(
    m: Site<H>,
    cfg: Seq<(Seq<char>, Val)>,
    proxy_file: Seq<char>,
    config_file: Seq<char>,
    i: int,
)
    requires
        proxy_lines(cfg).len() == 0,
        conf_text(cfg) is None,
        0 <= i < config_actions::<H>(m, cfg, proxy_file, config_file).1.len(),
    ensures
        config_actions::<H>(m, cfg, proxy_file, config_file).1[i] is Remove,
{
}

}
