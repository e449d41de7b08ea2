//! What is promised of mirrors, sources, keys, suites and selections.

use vstd::prelude::*;
use vstd::utf8::encode_utf8;

use crate::cc::apt_configure::{files_changed, preserves, sources_set_up};
use crate::cc::apt_configure::commands::{file_changed, step_run};
use crate::cc::apt_configure::debconf::{
    debconf_plan, installed_on, others, package_on, packages_in, plan_applied, same_names, DebconfSpec,
};
use crate::cc::apt_configure::host::{
    ask_dearmor, ask_path_exists, ask_read_file, ask_render, informed, logged, warned, Call, FileSpec, Host, Site,
    StepSpec,
};
use crate::cc::apt_configure::keys::{entry_needs, key_added, key_fetched, package_of, source_path, source_planned};
use crate::cc::apt_configure::mirror::{
    default_mirrors, dns_mirrors, first_for, host_name, is_for, last_for, list_prefix, list_renames, mirror_entry,
    mirror_for, mirror_info, resolvable, with_mirror,
};
use crate::cc::apt_configure::sources::{
    apt_paths, config_actions, proxy_text, rendered_sources, sources_params, sources_template, target_told,
};
use crate::cc::apt_configure::suites::{has_stanzas, known_suite, names_kept, option_words, source_line, suites_line};
use crate::pattern::pattern_found;
use crate::show::{show, truthy};
use crate::space::{words, Class};
use crate::text::{ends, head, holds, join, split_once, starts};
use crate::value::{get, get_after_put, put, Val};

verus! {

// ---------------------------------------------------------------------------
// Mirrors

/// The architectures of the main archive have their own archive of security updates.
/// Those of the ports archive have both from it. No other has default mirrors.
pub proof fn an_architecture_has_its_own_archives(arch: Seq<char>)
    ensures
        arch == "amd64"@ || arch == "i386"@ ==> default_mirrors(arch) == Ok::<Seq<(Seq<char>, Seq<char>)>, Seq<char>>(
            seq![
                ("PRIMARY"@, "http://archive.ubuntu.com/ubuntu/"@),
                ("SECURITY"@, "http://security.ubuntu.com/ubuntu/"@),
            ],
        ),
        arch == "s390x"@ || arch == "arm64"@ || arch == "armhf"@ || arch == "powerpc"@ || arch == "ppc64el"@ || arch
            == "riscv64"@ ==> {
            &&& default_mirrors(arch) is Ok
            &&& default_mirrors(arch)->Ok_0.len() == 2
            &&& default_mirrors(arch)->Ok_0[0] == ("PRIMARY"@, "http://ports.ubuntu.com/ubuntu-ports"@)
            &&& default_mirrors(arch)->Ok_0[1] == ("SECURITY"@, "http://ports.ubuntu.com/ubuntu-ports"@)
            &&& default_mirrors(arch)->Ok_0[0].1 == default_mirrors(arch)->Ok_0[1].1
        },
        default_mirrors(arch) is Ok <==> {
            ||| arch == "amd64"@
            ||| arch == "i386"@
            ||| arch == "s390x"@
            ||| arch == "arm64"@
            ||| arch == "armhf"@
            ||| arch == "powerpc"@
            ||| arch == "ppc64el"@
            ||| arch == "riscv64"@
        },
{
    reveal_strlit("amd64");
    reveal_strlit("i386");
    reveal_strlit("s390x");
    reveal_strlit("arm64");
    reveal_strlit("armhf");
    reveal_strlit("powerpc");
    reveal_strlit("ppc64el");
    reveal_strlit("riscv64");
    assert("amd64"@[1] == 'm');
    assert("s390x"@[1] == '3');
    assert("arm64"@[1] == 'r');
    assert("armhf"@[1] == 'r');
    assert("s390x"@ != "amd64"@);
    assert("arm64"@ != "amd64"@);
    assert("armhf"@ != "amd64"@);
    assert("i386"@.len() == 4 && "powerpc"@.len() == 7 && "ppc64el"@.len() == 7 && "riscv64"@.len() == 7);
}

/// Where no mirror is configured and the data source names none, the mirrors of a
/// ports architecture are both the ports archive, also for templates.
pub proof fn mirrors_where_nothing_is_configured(arch: Seq<char>)
    ensures
        arch == "s390x"@ || arch == "arm64"@ || arch == "armhf"@ || arch == "powerpc"@ || arch == "ppc64el"@ || arch
            == "riscv64"@ ==> mirror_info(None, None, arch, None) == Ok::<Seq<(Seq<char>, Val)>, Seq<char>>(
            seq![
                ("PRIMARY"@, Val::Text("http://ports.ubuntu.com/ubuntu-ports"@)),
                ("SECURITY"@, Val::Text("http://ports.ubuntu.com/ubuntu-ports"@)),
            ],
        ),
        arch == "amd64"@ || arch == "i386"@ ==> mirror_info(None, None, arch, Some(Seq::empty())) == Ok::<
            Seq<(Seq<char>, Val)>,
            Seq<char>,
        >(
            seq![
                ("PRIMARY"@, Val::Text("http://archive.ubuntu.com/ubuntu/"@)),
                ("SECURITY"@, Val::Text("http://security.ubuntu.com/ubuntu/"@)),
            ],
        ),
{
    an_architecture_has_its_own_archives(arch);
}

/// A configured primary mirror also serves security updates, unless there is one for
/// them; the architecture and the data source do not matter.
pub proof fn a_configured_mirror_comes_first(
    primary: Seq<char>,
    security: Option<Seq<char>>,
    arch: Seq<char>,
    datasource: Option<Seq<(Seq<char>, Val)>>,
)
    ensures
        mirror_info(Some(primary), security, arch, datasource) == Ok::<Seq<(Seq<char>, Val)>, Seq<char>>(
            seq![
                ("PRIMARY"@, Val::Text(primary)),
                (
                    "SECURITY"@,
                    Val::Text(
                        if security is Some {
                            security->0
                        } else {
                            primary
                        },
                    ),
                ),
            ],
        ),
{
}

/// Without a configured mirror, those of the data source are taken, each for its kind.
pub proof fn a_data_source_comes_before_the_defaults(
    security: Option<Seq<char>>,
    arch: Seq<char>,
    info: Seq<(Seq<char>, Val)>,
    p: Val,
    s: Val,
)
    requires
        info.len() > 0,
        get(info, "primary"@) == Some(p),
        get(info, "security"@) == Some(s),
    ensures
        mirror_info(None, security, arch, Some(info)) is Ok,
        get(mirror_info(None, security, arch, Some(info))->Ok_0, "PRIMARY"@) == Some(p),
        get(mirror_info(None, security, arch, Some(info))->Ok_0, "SECURITY"@) == Some(s),
{
    reveal_strlit("PRIMARY");
    reveal_strlit("SECURITY");
    assert("PRIMARY"@.len() != "SECURITY"@.len());
    get_after_put(info, "PRIMARY"@, p, "PRIMARY"@);
    get_after_put(put(info, "PRIMARY"@, p), "SECURITY"@, s, "PRIMARY"@);
}

/// The mirror for simple templates is the primary one.
pub proof fn simple_templates_get_the_primary_mirror(info: Seq<(Seq<char>, Val)>, v: Val)
    requires
        get(info, "PRIMARY"@) == Some(v),
    ensures
        get(with_mirror(info), "MIRROR"@) == Some(v),
{
    get_after_put(info, "MIRROR"@, v, "MIRROR"@);
}

proof fn the_first_is_first(list: Seq<Val>, arch: Seq<char>) -> (i: int)
    ensures
        match first_for(list, arch) {
            Some(v) => 0 <= i < list.len() && list[i] == v && is_for(v, arch) && forall|j: int|
                0 <= j < i ==> !is_for(#[trigger] list[j], arch),
            None => forall|j: int| 0 <= j < list.len() ==> !is_for(#[trigger] list[j], arch),
        },
    decreases list.len(),
{
    if list.len() == 0 {
        0
    } else if is_for(list[0], arch) {
        0
    } else {
        let i = the_first_is_first(list.skip(1), arch);
        assert forall|j: int| 0 <= j < list.len() && (first_for(list, arch) is Some ==> j < i + 1) implies !is_for(
            #[trigger] list[j],
            arch,
        ) by {
            if j > 0 {
                assert(!is_for(list.skip(1)[j - 1], arch));
            }
        }
        i + 1
    }
}

proof fn the_last_is_last(list: Seq<Val>, arch: Seq<char>) -> (i: int)
    ensures
        match last_for(list, arch) {
            Some(v) => 0 <= i < list.len() && list[i] == v && is_for(v, arch) && forall|j: int|
                i < j < list.len() ==> !is_for(#[trigger] list[j], arch),
            None => forall|j: int| 0 <= j < list.len() ==> !is_for(#[trigger] list[j], arch),
        },
    decreases list.len(),
{
    if list.len() == 0 {
        0
    } else if is_for(list.last(), arch) {
        list.len() - 1
    } else {
        let i = the_last_is_last(list.drop_last(), arch);
        assert forall|j: int| 0 <= j < list.len() && (last_for(list, arch) is Some ==> j > i) implies !is_for(
            #[trigger] list[j],
            arch,
        ) by {
            if j < list.len() - 1 {
                assert(!is_for(list.drop_last()[j], arch));
            }
        }
        i
    }
}

/// The entry of a kind of mirror for an architecture is the first that lists it. Where
/// none does, it is the last that lists `default`.
pub proof fn an_entry_for_the_architecture_comes_first(cfg: Seq<(Seq<char>, Val)>, kind: Seq<char>, arch: Seq<char>, list: Seq<Val>)
    requires
        get(cfg, kind) == Some(Val::Array(list)),
    ensures
        match mirror_entry(cfg, kind, arch) {
            None => forall|j: int| 0 <= j < list.len() ==> !is_for(#[trigger] list[j], arch) && !is_for(list[j], "default"@),
            Some(e) => {
                ||| exists|i: int|
                    0 <= i < list.len() && #[trigger] list[i] == Val::Object(e) && is_for(list[i], arch) && forall|j: int|
                        0 <= j < i ==> !is_for(#[trigger] list[j], arch)
                ||| {
                    &&& forall|j: int| 0 <= j < list.len() ==> !is_for(#[trigger] list[j], arch)
                    &&& exists|i: int|
                        0 <= i < list.len() && #[trigger] list[i] == Val::Object(e) && is_for(list[i], "default"@)
                            && forall|j: int| i < j < list.len() ==> !is_for(#[trigger] list[j], "default"@)
                }
            },
        },
{
    let i = the_first_is_first(list, arch);
    let k = the_last_is_last(list, "default"@);
    if first_for(list, arch) is Some {
        assert(list[i] is Object);
    } else if last_for(list, "default"@) is Some {
        assert(list[k] is Object);
    }
}

/// A mirror that an entry names by its address is that of its kind, and the machine is
/// not asked.
pub proof fn a_named_mirror_is_taken<H: Host>(
    m: Site<H>,
    cfg: Seq<(Seq<char>, Val)>,
    kind: Seq<char>,
    arch: Seq<char>,
    fqdn: Seq<char>,
    distro: Seq<char>,
    entry: Seq<(Seq<char>, Val)>,
    uri: Seq<char>,
)
    requires
        mirror_entry(cfg, kind, arch) == Some(entry),
        get(entry, "uri"@) == Some(Val::Text(uri)),
    ensures
        mirror_for::<H>(m, cfg, kind, arch, fqdn, distro) == (m, Some(uri)),
{
}

/// The names under which mirrors are looked for: in the machine's own domain, in
/// `localdomain` and in none.
pub proof fn the_names_of_mirrors(fqdn: Seq<char>, distro: Seq<char>, first: Seq<char>, domain: Seq<char>)
    requires
        split_once(fqdn, "."@) == Some((first, domain)),
        domain.len() > 0,
    ensures
        dns_mirrors("primary"@, fqdn, distro) is Ok,
        dns_mirrors("security"@, fqdn, distro) is Ok,
        ({
            let p = dns_mirrors("primary"@, fqdn, distro)->Ok_0;
            let s = dns_mirrors("security"@, fqdn, distro)->Ok_0;
            &&& p.len() == 3 && s.len() == 3
            &&& p[0] == "http://"@ + distro + "-mirror."@ + domain + "/"@ + distro
            &&& p[1] == "http://"@ + distro + "-mirror.localdomain/"@ + distro
            &&& p[2] == "http://"@ + distro + "-mirror/"@ + distro
            &&& s[0] == "http://"@ + distro + "-security-mirror."@ + domain + "/"@ + distro
            &&& s[1] == "http://"@ + distro + "-security-mirror.localdomain/"@ + distro
            &&& s[2] == "http://"@ + distro + "-security-mirror/"@ + distro
        }),
{
    reveal_strlit("primary");
    reveal_strlit("security");
    reveal_strlit("mirror");
    reveal_strlit("security-mirror");
    reveal_strlit("-");
    reveal_strlit(".");
    reveal_strlit("/");
    reveal_strlit("");
    reveal_strlit(".localdomain");
    reveal_strlit("-mirror.");
    reveal_strlit("-mirror.localdomain/");
    reveal_strlit("-mirror/");
    reveal_strlit("-security-mirror.");
    reveal_strlit("-security-mirror.localdomain/");
    reveal_strlit("-security-mirror/");
    assert("primary"@.len() != "security"@.len());
    let p = dns_mirrors("primary"@, fqdn, distro)->Ok_0;
    let s = dns_mirrors("security"@, fqdn, distro)->Ok_0;
    assert(p[0] =~= "http://"@ + distro + "-mirror."@ + domain + "/"@ + distro);
    assert(p[1] =~= "http://"@ + distro + "-mirror.localdomain/"@ + distro);
    assert(p[2] =~= "http://"@ + distro + "-mirror/"@ + distro);
    assert(s[0] =~= "http://"@ + distro + "-security-mirror."@ + domain + "/"@ + distro);
    assert(s[1] =~= "http://"@ + distro + "-security-mirror.localdomain/"@ + distro);
    assert(s[2] =~= "http://"@ + distro + "-security-mirror/"@ + distro);
}

/// What apt has of the default mirrors is renamed to that of the mirrors in use, the
/// primary before the security one; a mirror that is the default one is passed over.
pub proof fn lists_move_from_the_defaults<H: Host>(mirrors: Seq<(Seq<char>, Val)>, dir: Seq<char>, p: Seq<char>, s: Seq<char>)
    requires
        get(mirrors, "PRIMARY"@) == Some(Val::Text(p)),
        get(mirrors, "SECURITY"@) == Some(Val::Text(s)),
        p.len() > 0,
        s.len() > 0,
        list_prefix(p) != list_prefix("http://archive.ubuntu.com/ubuntu/"@),
        list_prefix(s) != list_prefix("http://security.ubuntu.com/ubuntu/"@),
    ensures
        list_renames(mirrors, "amd64"@, dir) == Ok::<Seq<(Seq<char>, Seq<char>)>, Seq<char>>(
            seq![
                (
                    dir + "/"@ + list_prefix("http://archive.ubuntu.com/ubuntu/"@),
                    dir + "/"@ + list_prefix(p),
                ),
                (
                    dir + "/"@ + list_prefix("http://security.ubuntu.com/ubuntu/"@),
                    dir + "/"@ + list_prefix(s),
                ),
            ],
        ),
{
    let a = list_prefix("http://archive.ubuntu.com/ubuntu/"@);
    let b = list_prefix("http://security.ubuntu.com/ubuntu/"@);
    let n = (dir + "/"@).len() as int;
    assert((dir + "/"@ + a).skip(n) =~= a);
    assert((dir + "/"@ + list_prefix(p)).skip(n) =~= list_prefix(p));
    assert((dir + "/"@ + b).skip(n) =~= b);
    assert((dir + "/"@ + list_prefix(s)).skip(n) =~= list_prefix(s));
    assert(list_renames(mirrors, "amd64"@, dir)->Ok_0 =~= seq![
        (dir + "/"@ + a, dir + "/"@ + list_prefix(p)),
        (dir + "/"@ + b, dir + "/"@ + list_prefix(s)),
    ]);
}

/// A slash at the end of a mirror's address does not matter to the name under which apt
/// keeps what it has of it.
pub proof fn a_slash_at_the_end_is_no_part_of_the_name(mirror: Seq<char>)
    requires
        !ends(mirror, "/"@),
    ensures
        list_prefix(mirror + "/"@) == list_prefix(mirror),
{
    reveal_strlit("/");
    let whole = mirror + "/"@;
    assert(whole.drop_last() =~= mirror);
    assert(whole.subrange(whole.len() - 1, whole.len() as int) =~= "/"@);
}

/// An address whose name is itself an address can be reached. Any other can where its
/// name is known to the name service, and not under an address that names which cannot
/// exist have too.
pub proof fn an_answer_for_every_name_does_not_count<H: Host>(m: Site<H>, url: Seq<char>, name: Seq<char>, known: Seq<Seq<char>>)
    requires
        host_name(url) == Some(name),
        ({
            let (w, a) = H::reply(m.world, Call::IsAddress(name));
            H::reply(w, Call::KnownRedirects).1->Known_0 == Some(known)
        }),
    ensures
        ({
            let (w1, is_address) = H::reply(m.world, Call::IsAddress(name));
            let w2 = H::reply(w1, Call::KnownRedirects).0;
            let found = H::reply(w2, Call::Resolve(name)).1->Names_0;
            resolvable::<H>(m, url).1 <==> is_address->Flag_0 || (found.len() > 0 && !known.contains(found[0]))
        }),
{
}

// ---------------------------------------------------------------------------
// apt's own configuration

/// The line of a proxy.
pub open spec fn proxied(cfg: Seq<(Seq<char>, Val)>, key: Seq<char>, scheme: Seq<char>) -> Seq<Seq<char>> {
    match get(cfg, key) {
        Some(v) => if truthy(v) {
            seq!["Acquire::"@ + scheme + "::Proxy \""@ + show(v) + "\";"@]
        } else {
            Seq::empty()
        },
        None => Seq::empty(),
    }
}

/// The file of proxies has a line for each scheme: `proxy` and `http_proxy` are for
/// http, `ftp_proxy` for ftp and `https_proxy` for https.
pub proof fn a_proxy_is_for_its_scheme(cfg: Seq<(Seq<char>, Val)>)
    ensures
        ({
            let lines = proxied(cfg, "proxy"@, "http"@) + proxied(cfg, "http_proxy"@, "http"@) + proxied(
                cfg,
                "ftp_proxy"@,
                "ftp"@,
            ) + proxied(cfg, "https_proxy"@, "https"@);
            proxy_text(cfg) == if lines.len() == 0 {
                None
            } else {
                Some(join(lines, "\n"@) + "\n"@)
            }
        }),
{
    reveal_strlit("Acquire::http::Proxy");
    reveal_strlit("Acquire::ftp::Proxy");
    reveal_strlit("Acquire::https::Proxy");
    reveal_strlit("Acquire::");
    reveal_strlit("http");
    reveal_strlit("ftp");
    reveal_strlit("https");
    reveal_strlit("::Proxy \"");
    reveal_strlit(" \"");
    assert("Acquire::http::Proxy"@ + " \""@ =~= "Acquire::"@ + "http"@ + "::Proxy \""@);
    assert("Acquire::ftp::Proxy"@ + " \""@ =~= "Acquire::"@ + "ftp"@ + "::Proxy \""@);
    assert("Acquire::https::Proxy"@ + " \""@ =~= "Acquire::"@ + "https"@ + "::Proxy \""@);
}

/// Proxies and free configuration each have a file: it is written where there is
/// something to write, and removed where it is there and there is nothing.
pub proof fn apts_own_files<H: Host>(m: Site<H>, cfg: Seq<(Seq<char>, Val)>, proxies: Seq<char>, conf: Val)
    requires
        proxy_text(cfg) == Some(proxies),
        get(cfg, "conf"@) == Some(conf),
        truthy(conf),
        preserves(cfg),
        get(cfg, "sources"@) is None,
    ensures
        forall|matcher: Option<Seq<char>>, mirrors: Seq<(Seq<char>, Val)>, release: Seq<char>, arch: Seq<char>, distro: Seq<
            char,
        >, deb822: bool, root: Seq<char>|
            #[trigger] sources_set_up::<H>(m, cfg, mirrors, matcher, release, arch, distro, deb822, root) == ({
                let m1 = logged::<H>(m, "write apt proxy info to /etc/apt/apt.conf.d/90cloud-init-aptproxy"@);
                let m2 = logged::<H>(m1, "write apt config info to /etc/apt/apt.conf.d/94cloud-init-config"@);
                let (m3, done) = files_changed::<H>(
                    m2,
                    seq![
                        FileSpec::Write {
                            path: "/etc/apt/apt.conf.d/90cloud-init-aptproxy"@,
                            content: proxies,
                            mode: None,
                        },
                        FileSpec::Write {
                            path: "/etc/apt/apt.conf.d/94cloud-init-config"@,
                            content: show(conf),
                            mode: None,
                        },
                    ],
                    root,
                );
                (
                    if done is Ok {
                        m3
                    } else {
                        warned::<H>(m3, "Failed to apply proxy or apt config info: "@ + done->Err_0)
                    },
                    Ok::<(), Seq<char>>(()),
                )
            }),
{
    reveal_strlit("write apt proxy info to /etc/apt/apt.conf.d/90cloud-init-aptproxy");
    reveal_strlit("write apt config info to /etc/apt/apt.conf.d/94cloud-init-config");
    reveal_strlit("/etc/apt/apt.conf.d/90cloud-init-aptproxy");
    reveal_strlit("/etc/apt/apt.conf.d/94cloud-init-config");
    reveal_strlit("write apt ");
    reveal_strlit("proxy");
    reveal_strlit("config");
    reveal_strlit(" info to ");
    assert("write apt "@ + "proxy"@ + " info to "@ + "/etc/apt/apt.conf.d/90cloud-init-aptproxy"@
        =~= "write apt proxy info to /etc/apt/apt.conf.d/90cloud-init-aptproxy"@);
    assert("write apt "@ + "config"@ + " info to "@ + "/etc/apt/apt.conf.d/94cloud-init-config"@
        =~= "write apt config info to /etc/apt/apt.conf.d/94cloud-init-config"@);
    let m1 = logged::<H>(m, "write apt proxy info to /etc/apt/apt.conf.d/90cloud-init-aptproxy"@);
    let m2 = logged::<H>(m1, "write apt config info to /etc/apt/apt.conf.d/94cloud-init-config"@);
    let actions = config_actions::<H>(
        m,
        cfg,
        "/etc/apt/apt.conf.d/90cloud-init-aptproxy"@,
        "/etc/apt/apt.conf.d/94cloud-init-config"@,
    );
    assert(actions.0 == m2);
    assert(actions.1 =~= seq![
        FileSpec::Write { path: "/etc/apt/apt.conf.d/90cloud-init-aptproxy"@, content: proxies, mode: None },
        FileSpec::Write { path: "/etc/apt/apt.conf.d/94cloud-init-config"@, content: show(conf), mode: None },
    ]);
}

/// A file of apt's own configuration is removed where nothing is configured for it and it
/// is there, and else it is left.
pub proof fn an_unused_file_is_removed<H: Host>(m: Site<H>, cfg: Seq<(Seq<char>, Val)>, proxy_file: Seq<char>, config_file: Seq<char>)
    requires
        proxy_text(cfg) is None,
        get(cfg, "conf"@) is None,
    ensures
        ({
            let actions = config_actions::<H>(m, cfg, proxy_file, config_file).1;
            let there = ask_path_exists::<H>(m, proxy_file).1;
            &&& there ==> actions.len() > 0 && actions[0] == FileSpec::Remove(proxy_file)
            &&& forall|i: int| 0 <= i < actions.len() ==> #[trigger] actions[i] == FileSpec::Remove(proxy_file) || actions[i]
                == FileSpec::Remove(config_file)
            &&& actions.contains(FileSpec::Remove(proxy_file)) && proxy_file != config_file ==> there
        }),
{
}

// ---------------------------------------------------------------------------
// Sources

/// Without apt's own word, its sources are where they usually are.
pub proof fn where_apt_looks()
    ensures
        apt_paths(None) == ("/etc/apt/sources.list"@, "/etc/apt/sources.list.d/"@),
{
}

/// Sources are written so that everybody can read them, to the file of lines, or to that
/// of stanzas, which is named for the distribution.
pub proof fn the_file_of_the_sources<H: Host>(
    m: Site<H>,
    cfg: Seq<(Seq<char>, Val)>,
    template: Seq<char>,
    rendered: Seq<char>,
    release: Seq<char>,
    distro: Seq<char>,
    deb822: bool,
    list: Seq<char>,
    parts: Seq<char>,
)
    requires
        template.len() > 0,
        get(cfg, "disable_suites"@) is None,
        list != parts + distro + ".sources"@,
    ensures
        ({
            let (after, actions) = rendered_sources::<H>(
                m,
                cfg,
                template,
                rendered,
                release,
                distro,
                deb822,
                (list, parts),
            );
            &&& actions is Ok
            &&& actions->Ok_0.len() > 0
            &&& actions->Ok_0[0] == FileSpec::Write {
                path: if has_stanzas(rendered) {
                    parts + distro + ".sources"@
                } else {
                    list
                },
                content: rendered,
                mode: Some(0o644),
            }
            &&& !has_stanzas(rendered) ==> actions->Ok_0.len() == 1
        }),
{
}

/// Where the sources are stanzas, a file of lines that is there gives way: on Ubuntu it
/// gets a text that says where the sources are, unless it has that already, and elsewhere
/// it is removed.
pub proof fn the_file_of_lines_gives_way<H: Host>(
    m: Site<H>,
    cfg: Seq<(Seq<char>, Val)>,
    template: Seq<char>,
    rendered: Seq<char>,
    release: Seq<char>,
    distro: Seq<char>,
    deb822: bool,
    list: Seq<char>,
    parts: Seq<char>,
) -> (seen: Site<H>)
    requires
        template.len() > 0,
        get(cfg, "disable_suites"@) is None,
        has_stanzas(rendered),
        list != parts + distro + ".sources"@,
    ensures
        ({
            let actions = rendered_sources::<H>(m, cfg, template, rendered, release, distro, deb822, (list, parts)).1->Ok_0;
            let moved = "# Ubuntu sources have moved to the /etc/apt/sources.list.d/ubuntu.sources\n# file, which uses the deb822 format. Use deb822-formatted .sources files\n# to manage package sources in the /etc/apt/sources.list.d/ directory.\n# See the sources.list(5) manual page for details.\n"@;
            match ask_read_file::<H>(seen, list).1 {
                None => actions.len() == 1,
                Some(text) => if distro != "ubuntu"@ {
                    actions.len() == 2 && actions[1] == FileSpec::Remove(list)
                } else if text != moved {
                    actions.len() == 2 && actions[1] == (FileSpec::Write { path: list, content: moved, mode: None })
                } else {
                    actions.len() == 1
                },
            }
        }),
{
    let stanza_file = parts + distro + ".sources"@;
    target_told::<H>(m, template, rendered, deb822, list, stanza_file)
}

/// The template for the sources is the configured one. Otherwise it is the one for the
/// distribution, by its form, and where there is none, the general one.
pub proof fn the_template_of_the_sources<H: Host>(m: Site<H>, cfg: Seq<(Seq<char>, Val)>, distro: Seq<char>, deb822: bool)
    ensures
        get(cfg, "sources_list"@) matches Some(v) && truthy(v) ==> sources_template::<H>(m, cfg, distro, deb822) == (
            m,
            Some(show(get(cfg, "sources_list"@)->0)),
        ),
        get(cfg, "sources_list"@) is None ==> {
            let m1 = informed::<H>(
                m,
                "No custom template provided, fall back to builtin"@,
            );
            let name = if deb822 {
                "sources.list."@ + distro + ".deb822"@
            } else {
                "sources.list."@ + distro
            };
            let calls = sources_template::<H>(m, cfg, distro, deb822).0.calls;
            let n = m1.calls.len() as int;
            &&& calls.len() > n
            &&& calls[n] == Call::TemplateExists(name)
            &&& H::reply(m1.world, Call::TemplateExists(name)).1->Flag_0 ==> calls[n + 1] == Call::LoadTemplate(name)
            &&& !H::reply(m1.world, Call::TemplateExists(name)).1->Flag_0 ==> calls[n + 3] == Call::TemplateExists(
                "sources.list"@,
            )
        },
{
    reveal_strlit("");
    assert("sources.list."@ + distro + ""@ =~= "sources.list."@ + distro);
}

/// A template is filled in with the release under both its names.
pub proof fn a_template_knows_the_release(release: Seq<char>)
    ensures
        get(sources_params(release, Seq::empty(), Seq::empty()), "RELEASE"@) == Some(Val::Text(release)),
        get(sources_params(release, Seq::empty(), Seq::empty()), "codename"@) == Some(Val::Text(release)),
{
    reveal_strlit("RELEASE");
    reveal_strlit("codename");
    assert("RELEASE"@.len() != "codename"@.len());
    let none = Seq::<(Seq<char>, Val)>::empty();
    get_after_put(none, "RELEASE"@, Val::Text(release), "RELEASE"@);
    get_after_put(put(none, "RELEASE"@, Val::Text(release)), "codename"@, Val::Text(release), "RELEASE"@);
}

/// The file of a source ends in `.list`, and it is among apt's own unless its name is a
/// whole path.
pub proof fn the_file_of_a_source(name: Seq<char>)
    ensures
        ends(source_path(name), ".list"@),
        starts(name, "/"@) && ends(name, ".list"@) ==> source_path(name) == name,
        starts(name, "/"@) && !ends(name, ".list"@) ==> source_path(name) == name + ".list"@,
        !starts(name, "/"@) && ends(name, ".list"@) ==> source_path(name) == "/etc/apt/sources.list.d/"@ + name,
{
    reveal_strlit(".list");
    reveal_strlit("/etc/apt/sources.list.d/");
    let path = if starts(name, "/"@) {
        name
    } else {
        "/etc/apt/sources.list.d/"@ + name
    };
    let whole = path + ".list"@;
    assert(whole.subrange(whole.len() - 5, whole.len() as int) =~= ".list"@);
    if !starts(name, "/"@) && ends(name, ".list"@) {
        assert(path.subrange(path.len() - 5, path.len() as int) =~= name.subrange(name.len() - 5, name.len() as int));
    }
}

/// A source without a key is filled in and, with a line feed behind it, put into its file,
/// behind what is there unless the entry says otherwise; a repository goes to the command
/// for it instead.
pub proof fn a_source_goes_to_its_file<H: Host>(
    m: Site<H>,
    name: Seq<char>,
    ent: Seq<(Seq<char>, Val)>,
    params: Seq<(Seq<char>, Val)>,
    matcher: Option<Seq<char>>,
    steps: Seq<StepSpec>,
    source: Val,
    text: Seq<char>,
)
    requires
        get(ent, "source"@) == Some(source),
        get(ent, "filename"@) is Some,
        get(ent, "key"@) is None,
        get(ent, "keyid"@) is None,
        !holds(show(source), "$KEY_FILE"@),
        ask_render::<H>(m, show(source), params).1 == Ok::<Seq<char>, Seq<char>>(text),
    ensures
        ({
            let planned = source_planned::<H>(m, name, ent, params, matcher, steps);
            &&& planned.0.calls == m.calls.push(Call::Render { text: show(source), params })
            &&& planned.1 == params
            &&& planned.2 == Ok::<Seq<StepSpec>, Seq<char>>(
                steps.push(
                    if matcher is Some && pattern_found(matcher->0, text) {
                        StepSpec::AddAptRepository { source: text }
                    } else {
                        StepSpec::WriteSource {
                            path: source_path(show(get(ent, "filename"@)->0)),
                            content: text + "\n"@,
                            append: get(ent, "append"@) is None || truthy(get(ent, "append"@)->0),
                        }
                    },
                ),
            )
        }),
{
}

/// A source without a file's name is put into the file of its own name.
pub proof fn a_source_is_named_for_itself<H: Host>(
    m: Site<H>,
    name: Seq<char>,
    ent: Seq<(Seq<char>, Val)>,
    params: Seq<(Seq<char>, Val)>,
    matcher: Option<Seq<char>>,
    steps: Seq<StepSpec>,
)
    requires
        get(ent, "filename"@) is None,
    ensures
        source_planned::<H>(m, name, ent, params, matcher, steps) == source_planned::<H>(
            m,
            name,
            put(ent, "filename"@, Val::Text(name)),
            params,
            matcher,
            steps,
        ),
{
    get_after_put(ent, "filename"@, Val::Text(name), "filename"@);
}

/// Where a key is put: with the other keys that apt trusts, and apart from them where the
/// source names the key's file itself.
pub proof fn where_a_key_is_put<H: Host>(m: Site<H>, name: Seq<char>, data: Seq<char>, hardened: bool, steps: Seq<StepSpec>)
    requires
        name.len() > 0,
    ensures
        ({
            let path = if hardened {
                "/etc/apt/cloud-init.gpg.d/"@ + name + ".gpg"@
            } else {
                "/etc/apt/trusted.gpg.d/"@ + name + ".gpg"@
            };
            let (after, planned, place) = key_added::<H>(m, name, data, hardened, steps);
            match ask_dearmor::<H>(m, data).1 {
                Ok(content) => place == path && planned == steps.push(StepSpec::WriteKey { path, content }),
                Err(_) => place == "/dev/null"@ && planned == steps,
            }
        }),
{
}

/// A key that is only named by its identifier is fetched, from the key server that the
/// entry names or from that of Ubuntu. One that is there is not.
pub proof fn a_key_is_fetched_by_its_identifier<H: Host>(m: Site<H>, ent: Seq<(Seq<char>, Val)>)
    ensures
        get(ent, "key"@) is Some || get(ent, "keyid"@) is None ==> key_fetched::<H>(m, ent) == (
            m,
            Ok::<Seq<(Seq<char>, Val)>, Seq<char>>(ent),
        ),
        get(ent, "keyid"@) matches Some(id) && get(ent, "key"@) is None ==> key_fetched::<H>(m, ent).0.calls == m.calls.push(
            Call::GetKey {
                keyid: show(get(ent, "keyid"@)->0),
                keyserver: match get(ent, "keyserver"@) {
                    Some(v) => show(v),
                    None => "keyserver.ubuntu.com"@,
                },
            },
        ),
{
}

/// What a step asks of the machine: files get the usual mode, and repositories are added
/// without bringing the lists up to date.
pub proof fn what_a_step_does<H: Host>(m: Site<H>, path: Seq<char>, text: Seq<char>, bytes: Seq<u8>)
    ensures
        ({
            let (after, done) = step_run::<H>(m, StepSpec::WriteKey { path, content: bytes }, "/"@);
            done is Ok ==> after.calls == m.calls.push(Call::EnsureParent(path)).push(
                Call::Write { path, content: bytes, mode: 0o644 },
            )
        }),
        ({
            let (after, done) = step_run::<H>(m, StepSpec::WriteSource { path, content: text, append: true }, "/"@);
            done is Ok ==> after.calls == m.calls.push(Call::EnsureParent(path)).push(
                Call::Append { path, content: encode_utf8(text), mode: 0o644 },
            )
        }),
        ({
            let (after, done) = step_run::<H>(m, StepSpec::WriteSource { path, content: text, append: false }, "/"@);
            done is Ok ==> after.calls == m.calls.push(Call::EnsureParent(path)).push(
                Call::Write { path, content: encode_utf8(text), mode: 0o644 },
            )
        }),
        ({
            let (after, done) = step_run::<H>(m, StepSpec::AddAptRepository { source: text }, "/"@);
            let call = Call::Subp(seq!["add-apt-repository"@, "--no-update"@, text]);
            &&& after.calls.take(m.calls.len() as int + 1) == m.calls.push(call)
            &&& done is Ok <==> H::reply(m.world, call).1->Done_0 is Ok
        }),
{
    let (after, done) = step_run::<H>(m, StepSpec::AddAptRepository { source: text }, "/"@);
    let call = Call::Subp(seq!["add-apt-repository"@, "--no-update"@, text]);
    assert(after.calls.take(m.calls.len() as int + 1) =~= m.calls.push(call));
}

/// A file is written with its text and its mode, the usual one where it has none, once its
/// directory is there; one that goes is removed.
pub proof fn what_a_change_does<H: Host>(m: Site<H>, path: Seq<char>, content: Seq<char>, mode: Option<u32>, root: Seq<char>)
    ensures
        ({
            let (after, done) = file_changed::<H>(m, FileSpec::Write { path, content, mode }, root);
            let n = m.calls.len() as int;
            &&& after.calls[n] == Call::EnsureParent(path)
            &&& done is Ok ==> after.calls.len() == n + 3 && after.calls[n + 1] is Report && after.calls[n + 2] == (
            Call::Write {
                path,
                content: encode_utf8(content),
                mode: match mode {
                    Some(bits) => bits,
                    None => 0o644,
                },
            })
        }),
        file_changed::<H>(m, FileSpec::Remove(path), root).0.calls == m.calls.push(Call::RemoveFile(path)),
{
}

/// A configuration needs `gpg` for keys and the repository command for repositories; they
/// are in the packages `gnupg` and `software-properties-common`.
pub proof fn what_is_needed(list: Seq<Seq<char>>)
    ensures
        entry_needs(list, true, false).contains("gpg"@),
        entry_needs(list, false, true).contains("add-apt-repository"@),
        entry_needs(list, false, false) == list,
        package_of("gpg"@) == "gnupg"@,
        package_of("add-apt-repository"@) == "software-properties-common"@,
{
    reveal_strlit("gpg");
    reveal_strlit("add-apt-repository");
    assert("gpg"@.len() != "add-apt-repository"@.len());
    assert(list.push("gpg"@).last() == "gpg"@);
    assert(list.push("add-apt-repository"@).last() == "add-apt-repository"@);
}

// ---------------------------------------------------------------------------
// Suites

/// The short names of suites, written out.
pub proof fn the_short_names_of_suites(suite: Seq<char>)
    ensures
        known_suite("updates"@) == "$RELEASE-updates"@,
        known_suite("backports"@) == "$RELEASE-backports"@,
        known_suite("security"@) == "$RELEASE-security"@,
        known_suite("proposed"@) == "$RELEASE-proposed"@,
        known_suite("release"@) == "$RELEASE"@,
        suite != "updates"@ && suite != "backports"@ && suite != "security"@ && suite != "proposed"@ && suite
            != "release"@ ==> known_suite(suite) == suite,
{
    reveal_strlit("updates");
    reveal_strlit("backports");
    reveal_strlit("security");
    reveal_strlit("proposed");
    reveal_strlit("release");
    assert("updates"@[0] == 'u');
    assert("release"@[0] == 'r');
    assert("security"@[0] == 's');
    assert("proposed"@[0] == 'p');
}

/// A line of a source without options is commented out exactly if its third word is the
/// suite. One with options in one word has its suite one word later.
pub proof fn a_line_is_for_the_suite_behind_its_address(line: Seq<char>, suite: Seq<char>)
    requires
        !starts(line, "#"@),
        words(Class::Space, line).len() >= 4,
    ensures
        ({
            let w = words(Class::Space, line);
            &&& !starts(w[1], "["@) ==> source_line(line, suite) == Ok::<Seq<char>, Seq<char>>(
                if w[2] == suite {
                    "# suite disabled by cloud-init: "@ + line
                } else {
                    line
                },
            )
            &&& starts(w[1], "["@) && ends(w[1], "]"@) ==> source_line(line, suite) == Ok::<Seq<char>, Seq<char>>(
                if w[3] == suite {
                    "# suite disabled by cloud-init: "@ + line
                } else {
                    line
                },
            )
        }),
{
    reveal_with_fuel(option_words, 2);
}

/// The names that stay on a line of suites are those that are not taken out, in their
/// order.
pub proof fn a_name_stays_unless_it_is_taken_out(names: Seq<Seq<char>>, disabled: Seq<Seq<char>>, name: Seq<char>)
    ensures
        names_kept(names, disabled).contains(name) <==> names.contains(name) && !disabled.contains(name),
        (forall|i: int| 0 <= i < names.len() ==> !disabled.contains(#[trigger] names[i])) ==> names_kept(names, disabled)
            == names,
    decreases names.len(),
{
    if names.len() > 0 {
        let before = names.drop_last();
        a_name_stays_unless_it_is_taken_out(before, disabled, name);
        let kept = names_kept(before, disabled);
        assert(names =~= before.push(names.last()));
        assert(names.contains(name) <==> before.contains(name) || name == names.last()) by {
            if before.contains(name) {
                let k = choose|k: int| 0 <= k < before.len() && before[k] == name;
                assert(names[k] == name);
            }
            if name == names.last() {
                assert(names[names.len() - 1] == name);
            }
            if names.contains(name) && name != names.last() {
                let k = choose|k: int| 0 <= k < names.len() && names[k] == name;
                assert(before[k] == name);
            }
        }
        let one = kept.push(names.last());
        assert(one.contains(name) <==> kept.contains(name) || name == names.last()) by {
            if kept.contains(name) {
                let k = choose|k: int| 0 <= k < kept.len() && kept[k] == name;
                assert(one[k] == name);
            }
            assert(one[kept.len() as int] == names.last());
        }
        if forall|i: int| 0 <= i < names.len() ==> !disabled.contains(#[trigger] names[i]) {
            assert forall|i: int| 0 <= i < before.len() implies !disabled.contains(#[trigger] before[i]) by {
                assert(before[i] == names[i]);
            }
            assert(!disabled.contains(names[names.len() - 1]));
        }
    }
}

/// A line of suites that keeps all of them stays as it is. One that loses some is kept as
/// a comment above the line with the others.
pub proof fn a_shortened_line_keeps_the_old_one(line: Seq<char>, disabled: Seq<Seq<char>>)
    requires
        starts(line, "Suites:"@),
    ensures
        ({
            let names = words(Class::Space, line.skip(7));
            let kept = names_kept(names, disabled);
            suites_line(line, disabled) == if kept == names {
                line + "\n"@
            } else {
                "# cloud-init disable_suites redacted: "@ + line + "\n"@ + "Suites: "@ + join(kept, " "@) + "\n"@
            }
        }),
{
    reveal_strlit("Suites:");
    reveal_strlit("\nSuites: ");
    reveal_strlit("\n");
    reveal_strlit("Suites: ");
    let names = words(Class::Space, line.skip(7));
    let kept = names_kept(names, disabled);
    assert("# cloud-init disable_suites redacted: "@ + line + "\nSuites: "@ =~= "# cloud-init disable_suites redacted: "@ + line
        + "\n"@ + "Suites: "@);
}

// ---------------------------------------------------------------------------
// Selections

/// Selections are handed to `debconf-set-selections`. Only cloud-init itself is configured
/// anew, once what the package manager left of its configuration is removed; other packages
/// that are there already are only told of.
pub proof fn what_is_done_for_selections<H: Host>(m: Site<H>, plan: DebconfSpec)
    ensures
        ({
            let (after, done) = plan_applied::<H>(m, plan, "/"@);
            let call = Call::Feed { argv: seq!["debconf-set-selections"@], data: plan.selections };
            let fed = H::reply(m.world, call).1->Done_0;
            &&& fed is Err ==> after.calls == m.calls.push(call) && done == fed
            &&& fed is Ok && plan.reconfigure.len() == 0 ==> after.calls == m.calls.push(call) && done is Ok
            &&& fed is Ok && plan.reconfigure.len() > 0 ==> after.calls.last() == Call::Subp(
                seq!["dpkg-reconfigure"@, "--frontend=noninteractive"@] + plan.reconfigure,
            )
        }),
{
}

proof fn only_the_one(names: Seq<Seq<char>>, one: Seq<char>, i: int)
    ensures
        0 <= i < same_names(names, one).len() ==> same_names(names, one)[i] == one,
        0 <= i < others(names, one).len() ==> others(names, one)[i] != one,
    decreases names.len(),
{
    if names.len() > 0 {
        only_the_one(names.drop_last(), one, i);
    }
}

/// Only cloud-init is ever configured anew, and it is never among those of which that
/// cannot be done.
pub proof fn only_cloud_init_is_configured_anew(cfg: Seq<(Seq<char>, Val)>, installed: Seq<Seq<char>>, i: int)
    requires
        debconf_plan(cfg, installed) matches Ok(Some(_)),
    ensures
        ({
            let plan = debconf_plan(cfg, installed)->Ok_0->0;
            &&& 0 <= i < plan.reconfigure.len() ==> plan.reconfigure[i] == "cloud-init"@
            &&& 0 <= i < plan.unhandled.len() ==> plan.unhandled[i] != "cloud-init"@
        }),
{
    let m = get(cfg, "debconf_selections"@)->0->Object_0;
    only_the_one(packages_in(m, installed), "cloud-init"@, i);
}

/// A package counts as there where its line in the list of packages says that it is
/// installed or held.
pub proof fn which_packages_are_there(line: Seq<char>)
    ensures
        installed_on(line) is Some <==> {
            let w = words(Class::TextSpace, line);
            w.len() >= 3 && (starts(w[0], "ii"@) || starts(w[0], "hi"@))
        },
        installed_on(line) is Some ==> installed_on(line)->0 == head(words(Class::TextSpace, line)[1], ":"@),
{
}

/// A comment among selections is for no package.
pub proof fn a_comment_is_for_no_package(line: Seq<char>)
    ensures
        package_on(line) is None <==> starts(line, "#"@),
{
}

}
