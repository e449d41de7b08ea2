//! Choosing mirrors, and how apt names what it has of them.

use vstd::prelude::*;

use crate::cc::apt_configure::host::{
    ask_datasource_mirrors, ask_is_address, ask_keep_redirects, ask_known_redirects, ask_resolve, log_debug, log_tool,
    logged, object_result, tool_logged, Host, Site,
};
use crate::order::{insert_text, with_text};
use crate::show::{list_repr, list_repr_of, py_str, py_truthy, show, truthy};
use crate::text::{
    append_texts, argv3, behind, cat2, cat3, cat7, chars_of, ends, ends_with, has_text, head, head_of, opt_text, replace, replaced,
    rsplit_at, rsplit_once, same, slice_text, split_at_first, split_once, strip_prefix, texts,
    texts_push,
};
use crate::value::{get, put, vals, Node, Object, Val};

verus! {

// ---------------------------------------------------------------------------
// Defaults

/// The architectures of the main archive.
pub open spec fn is_primary_arch(arch: Seq<char>) -> bool {
    arch == "amd64"@ || arch == "i386"@
}

/// The architectures of the ports archive.
pub open spec fn is_ports_arch(arch: Seq<char>) -> bool {
    ||| arch == "s390x"@
    ||| arch == "arm64"@
    ||| arch == "armhf"@
    ||| arch == "powerpc"@
    ||| arch == "ppc64el"@
    ||| arch == "riscv64"@
}

/// The mirrors of an architecture for which nothing is configured.
pub open spec fn default_mirrors(arch: Seq<char>) -> Result<Seq<(Seq<char>, Seq<char>)>, Seq<char>> {
    if is_primary_arch(arch) {
        Ok(
            seq![
                ("PRIMARY"@, "http://archive.ubuntu.com/ubuntu/"@),
                ("SECURITY"@, "http://security.ubuntu.com/ubuntu/"@),
            ],
        )
    } else if is_ports_arch(arch) {
        Ok(
            seq![
                ("PRIMARY"@, "http://ports.ubuntu.com/ubuntu-ports"@),
                ("SECURITY"@, "http://ports.ubuntu.com/ubuntu-ports"@),
            ],
        )
    } else {
        Err("No default mirror known for arch "@ + arch)
    }
}

/// Pairs of texts.
pub open spec fn text_pairs(v: Seq<(String, String)>) -> Seq<(Seq<char>, Seq<char>)> {
    Seq::new(v.len(), |i: int| (v[i].0@, v[i].1@))
}

pub open spec fn pairs_result(r: Result<Vec<(String, String)>, String>) -> Result<
    Seq<(Seq<char>, Seq<char>)>,
    Seq<char>,
> {
    match r {
        Ok(v) => Ok(text_pairs(v@)),
        Err(e) => Err(e@),
    }
}

fn two_mirrors(primary: &str, security: &str) -> (r: Vec<(String, String)>)
    ensures
        text_pairs(r@) == seq![("PRIMARY"@, primary@), ("SECURITY"@, security@)],
{
    let mut v: Vec<(String, String)> = Vec::new();
    v.push(("PRIMARY".to_owned(), primary.to_owned()));
    v.push(("SECURITY".to_owned(), security.to_owned()));
    assert(text_pairs(v@) =~= seq![("PRIMARY"@, primary@), ("SECURITY"@, security@)]);
    v
}

pub fn get_default_mirrors(arch: &str) -> (r: Result<Vec<(String, String)>, String>)
    ensures
        pairs_result(r) == default_mirrors(arch@),
{
    if same(arch, "amd64") || same(arch, "i386") {
        Ok(two_mirrors("http://archive.ubuntu.com/ubuntu/", "http://security.ubuntu.com/ubuntu/"))
    } else if same(arch, "s390x") || same(arch, "arm64") || same(arch, "armhf") || same(arch, "powerpc") || same(
        arch,
        "ppc64el",
    ) || same(arch, "riscv64") {
        Ok(two_mirrors("http://ports.ubuntu.com/ubuntu-ports", "http://ports.ubuntu.com/ubuntu-ports"))
    } else {
        Err(cat2("No default mirror known for arch ", arch))
    }
}

// ---------------------------------------------------------------------------
// The configuration's mirrors

/// Whether an entry is for an architecture.
pub open spec fn is_for(entry: Val, arch: Seq<char>) -> bool {
    match entry {
        Val::Object(e) => get(e, "arches"@) matches Some(Val::Array(items)) && items.contains(Val::Text(arch)),
        _ => false,
    }
}

/// The first entry for an architecture.
pub open spec fn first_for(list: Seq<Val>, arch: Seq<char>) -> Option<Val>
    decreases list.len(),
{
    if list.len() == 0 {
        None
    } else if is_for(list[0], arch) {
        Some(list[0])
    } else {
        first_for(list.skip(1), arch)
    }
}

/// The last entry for an architecture.
pub open spec fn last_for(list: Seq<Val>, arch: Seq<char>) -> Option<Val>
    decreases list.len(),
{
    if list.len() == 0 {
        None
    } else if is_for(list.last(), arch) {
        Some(list.last())
    } else {
        last_for(list.drop_last(), arch)
    }
}

/// The entry of a kind of mirror for an architecture: the first that names it, or
/// the last that is the default.
pub open spec fn mirror_entry(cfg: Seq<(Seq<char>, Val)>, kind: Seq<char>, arch: Seq<char>) -> Option<Seq<(Seq<char>, Val)>> {
    match get(cfg, kind) {
        Some(Val::Array(list)) => match first_for(list, arch) {
            Some(Val::Object(e)) => Some(e),
            _ => match last_for(list, "default"@) {
                Some(Val::Object(e)) => Some(e),
                _ => None,
            },
        },
        _ => None,
    }
}

fn lists_arch(entry: &Object, arch: &str) -> (r: bool)
    ensures
        r == is_for(Val::Object(entry@), arch@),
{
    match entry.get("arches") {
        Some(Node::Array(items)) => {
            let ghost all = vals(items@);
            let mut i: usize = 0;
            while i < items.len()
                invariant
                    i <= items@.len(),
                    all == vals(items@),
                    get(entry@, "arches"@) == Some(Val::Array(all)),
                    forall|j: int| 0 <= j < i ==> all[j] != Val::Text(arch@),
                decreases items.len() - i,
            {
                assert(all[i as int] == items@[i as int]@);
                if let Node::Text(s) = &items[i] {
                    if same(s.as_str(), arch) {
                        assert(all.contains(Val::Text(arch@)));
                        return true;
                    }
                }
                i += 1;
            }
            false
        },
        _ => false,
    }
}

pub fn get_arch_mirrorconfig<'a>(cfg: &'a Object, mirrortype: &str, arch: &str) -> (r: Option<&'a Object>)
    ensures
        match r {
            Some(e) => mirror_entry(cfg@, mirrortype@, arch@) == Some(e@),
            None => mirror_entry(cfg@, mirrortype@, arch@) is None,
        },
{
    let list = match cfg.get(mirrortype) {
        Some(Node::Array(list)) => list,
        _ => return None,
    };
    let ghost all = vals(list@);
    let mut default: Option<&'a Object> = None;
    let mut i: usize = 0;
    assert(all.skip(0) =~= all);
    assert(all.take(0) =~= Seq::empty());
    while i < list.len()
        invariant
            i <= list@.len(),
            all == vals(list@),
            get(cfg@, mirrortype@) == Some(Val::Array(all)),
            first_for(all.skip(i as int), arch@) == first_for(all, arch@),
            match default {
                Some(e) => last_for(all.take(i as int), "default"@) == Some(Val::Object(e@)),
                None => last_for(all.take(i as int), "default"@) is None,
            },
        decreases list.len() - i,
    {
        assert(all.skip(i as int)[0] == list@[i as int]@);
        assert(all.skip(i as int).skip(1) =~= all.skip(i + 1));
        assert(all.take(i + 1).drop_last() =~= all.take(i as int));
        assert(all.take(i + 1).last() == list@[i as int]@);
        if let Node::Object(entry) = &list[i] {
            if lists_arch(entry, arch) {
                return Some(entry);
            }
            if lists_arch(entry, "default") {
                default = Some(entry);
            }
        }
        i += 1;
    }
    assert(all.take(i as int) =~= all);
    default
}

/// The texts of a list.
pub open spec fn texts_in(items: Seq<Val>) -> Seq<Seq<char>>
    decreases items.len(),
{
    if items.len() == 0 {
        Seq::empty()
    } else {
        match items.last() {
            Val::Text(s) => texts_in(items.drop_last()).push(s),
            _ => texts_in(items.drop_last()),
        }
    }
}

fn texts_in_list(items: &Vec<Node>) -> (r: Vec<String>)
    ensures
        texts(r@) == texts_in(vals(items@)),
{
    let ghost all = vals(items@);
    let mut out: Vec<String> = Vec::new();
    let mut i: usize = 0;
    assert(texts(out@) =~= texts_in(all.take(0)));
    while i < items.len()
        invariant
            i <= items@.len(),
            all == vals(items@),
            texts(out@) == texts_in(all.take(i as int)),
        decreases items.len() - i,
    {
        assert(all.take(i + 1).drop_last() =~= all.take(i as int));
        assert(all.take(i + 1).last() == items@[i as int]@);
        if let Node::Text(s) = &items[i] {
            let ghost before = texts(out@);
            out.push(s.clone());
            assert(texts(out@) =~= before.push(s@));
        }
        i += 1;
    }
    assert(all.take(i as int) =~= all);
    out
}

/// The mirrors that an entry has searched, if it speaks of them.
pub open spec fn searched(entry: Seq<(Seq<char>, Val)>) -> Option<Seq<Seq<char>>> {
    match get(entry, "search"@) {
        None | Some(Val::Null) => None,
        Some(Val::Array(items)) => Some(texts_in(items)),
        Some(_) => Some(Seq::empty()),
    }
}

fn searched_in(entry: &Object) -> (r: Option<Vec<String>>)
    ensures
        match r {
            Some(v) => searched(entry@) == Some(texts(v@)),
            None => searched(entry@) is None,
        },
{
    match entry.get("search") {
        None => None,
        Some(Node::Null) => None,
        Some(Node::Array(items)) => Some(texts_in_list(items)),
        Some(_) => {
            let none: Vec<String> = Vec::new();
            assert(texts(none@) =~= Seq::empty());
            Some(none)
        },
    }
}

/// What is said of searching the name service.
pub open spec fn dns_setting(entry: Seq<(Seq<char>, Val)>) -> Val {
    match get(entry, "search_dns"@) {
        Some(v) => v,
        None => Val::Null,
    }
}

/// The mirror of a kind for an architecture: the one that is named, or the first
/// that can be reached of those to search, or what the name service knows.
pub open spec fn mirror_for<H: Host>(
    m: Site<H>,
    cfg: Seq<(Seq<char>, Val)>,
    kind: Seq<char>,
    arch: Seq<char>,
    fqdn: Seq<char>,
    distro: Seq<char>,
) -> (Site<H>, Option<Seq<char>>) {
    match mirror_entry(cfg, kind, arch) {
        None => (m, None),
        Some(entry) => match get(entry, "uri"@) {
            Some(Val::Text(uri)) => (m, Some(uri)),
            _ => match searched(entry) {
                None => dns_mirror::<H>(m, dns_setting(entry), kind, fqdn, distro),
                Some(candidates) => {
                    let (m1, found) = mirror_found::<H>(m, candidates);
                    match found {
                        Some(mirror) => (m1, Some(mirror)),
                        None => dns_mirror::<H>(m1, dns_setting(entry), kind, fqdn, distro),
                    }
                },
            },
        },
    }
}

pub fn get_mirror<H: Host>(
    cfg: &Object,
    mirrortype: &str,
    arch: &str,
    fqdn: &str,
    distro: &str,
    host: &mut H,
) -> (r: Option<String>)
    ensures
        (final(host).machine(), opt_text(r)) == mirror_for::<H>(
            old(host).machine(),
            cfg@,
            mirrortype@,
            arch@,
            fqdn@,
            distro@,
        ),
{
    let entry = match get_arch_mirrorconfig(cfg, mirrortype, arch) {
        Some(entry) => entry,
        None => return None,
    };
    if let Some(Node::Text(uri)) = entry.get("uri") {
        return Some(uri.clone());
    }
    if let Some(candidates) = searched_in(entry) {
        if let Some(found) = search_for_mirror(&candidates, host) {
            return Some(found);
        }
    }
    let configured = match entry.get("search_dns") {
        Some(v) => v.clone(),
        None => Node::Null,
    };
    search_for_mirror_dns(&configured, mirrortype, fqdn, distro, host)
}

// ---------------------------------------------------------------------------
// Names to search for

/// The address of a mirror with a name and a domain.
pub open spec fn mirror_address(distro: Seq<char>, name: Seq<char>, domain: Seq<char>) -> Seq<char> {
    "http://"@ + distro + "-"@ + name + domain + "/"@ + distro
}

/// The mirrors that are looked for by name: in the machine's own domain, in
/// `localdomain`, and in none.
pub open spec fn dns_mirrors(kind: Seq<char>, fqdn: Seq<char>, distro: Seq<char>) -> Result<Seq<Seq<char>>, Seq<char>> {
    if kind != "primary"@ && kind != "security"@ {
        Err("unknown mirror type"@)
    } else {
        let name = if kind == "primary"@ {
            "mirror"@
        } else {
            "security-mirror"@
        };
        let own = match split_once(fqdn, "."@) {
            Some((_, domain)) => if domain.len() > 0 {
                seq![mirror_address(distro, name, "."@ + domain)]
            } else {
                Seq::empty()
            },
            None => Seq::empty(),
        };
        Ok(own + seq![mirror_address(distro, name, ".localdomain"@), mirror_address(distro, name, ""@)])
    }
}

fn mirror_at(distro: &str, name: &str, domain: &str) -> (r: String)
    ensures
        r@ == mirror_address(distro@, name@, domain@),
{
    cat7("http://", distro, "-", name, domain, "/", distro)
}

pub fn mirror_dns_candidates(mirrortype: &str, fqdn: &str, distro: &str) -> (r: Result<Vec<String>, String>)
    ensures
        crate::cc::texts_result(r) == dns_mirrors(mirrortype@, fqdn@, distro@),
{
    let name = if same(mirrortype, "primary") {
        "mirror"
    } else if same(mirrortype, "security") {
        "security-mirror"
    } else {
        return Err("unknown mirror type".to_owned());
    };
    let mut out: Vec<String> = Vec::new();
    if let Some((_, domain)) = split_at_first(fqdn, ".") {
        if !domain.as_str().is_empty() {
            out.push(mirror_at(distro, name, cat2(".", domain.as_str()).as_str()));
        }
    }
    out.push(mirror_at(distro, name, ".localdomain"));
    out.push(mirror_at(distro, name, ""));
    assert(texts(out@) =~= dns_mirrors(mirrortype@, fqdn@, distro@)->Ok_0);
    Ok(out)
}

/// The host of an address, without a user, a port or brackets.
pub open spec fn host_name(url: Seq<char>) -> Option<Seq<char>> {
    let rest = match split_once(url, "://"@) {
        Some((_, rest)) => rest,
        None => url,
    };
    let authority = head(head(head(rest, "/"@), "?"@), "#"@);
    let place = match rsplit_once(authority, '@') {
        Some((_, place)) => place,
        None => authority,
    };
    let name = match behind(place, "["@) {
        Some(inner) => match split_once(inner, "]"@) {
            Some((address, _)) => address,
            None => Seq::empty(),
        },
        None => head(place, ":"@),
    };
    if name.len() > 0 {
        Some(name)
    } else {
        None
    }
}

pub fn url_hostname(url: &str) -> (r: Option<String>)
    ensures
        opt_text(r) == host_name(url@),
{
    let rest = match split_at_first(url, "://") {
        Some((_, rest)) => rest,
        None => url.to_owned(),
    };
    let authority = head_of(head_of(head_of(rest.as_str(), "/").as_str(), "?").as_str(), "#");
    let place = match rsplit_at(authority.as_str(), '@') {
        Some((_, place)) => place,
        None => authority,
    };
    let name = match strip_prefix(place.as_str(), "[") {
        Some(inner) => match split_at_first(inner.as_str(), "]") {
            Some((address, _)) => address,
            None => return None,
        },
        None => head_of(place.as_str(), ":"),
    };
    if name.as_str().is_empty() {
        None
    } else {
        Some(name)
    }
}

/// The names that cannot exist, by which a name service that answers for every
/// name is found out.
pub open spec fn bad_names() -> Seq<Seq<char>> {
    seq!["does-not-exist.example.com."@, "example.invalid."@, "__cloud_init_expected_not_found__"@]
}

/// Texts without repetition, in the order in which they first come.
pub open spec fn distinct(list: Seq<Seq<char>>) -> Seq<Seq<char>>
    decreases list.len(),
{
    if list.len() == 0 {
        Seq::empty()
    } else {
        let before = distinct(list.drop_last());
        if before.contains(list.last()) {
            before
        } else {
            before.push(list.last())
        }
    }
}

/// Texts without repetition, in the order in which they first come.
pub fn distinct_of(list: &Vec<String>) -> (r: Vec<String>)
    ensures
        texts(r@) == distinct(texts(list@)),
{
    let ghost all = texts(list@);
    let mut out: Vec<String> = Vec::new();
    let mut i: usize = 0;
    assert(texts(out@) =~= distinct(all.take(0)));
    while i < list.len()
        invariant
            i <= list@.len(),
            all == texts(list@),
            texts(out@) == distinct(all.take(i as int)),
        decreases list.len() - i,
    {
        assert(all[i as int] == list@[i as int]@);
        assert(all.take(i + 1).drop_last() =~= all.take(i as int));
        if !has_text(&out, list[i].as_str()) {
            let ghost before = texts(out@);
            out.push(list[i].clone());
            assert(texts(out@) =~= before.push(all[i as int]));
        }
        i += 1;
    }
    assert(all.take(i as int) =~= all);
    out
}

/// Addresses, each behind the name it was given for.
pub open spec fn named_addresses(name: Seq<char>, addresses: Seq<Seq<char>>) -> Seq<Seq<char>> {
    Seq::new(addresses.len(), |i: int| name + ": "@ + addresses[i])
}

/// The addresses that names are given: behind those names, and on their own.
pub open spec fn names_resolved<H: Host>(
    m: Site<H>,
    names: Seq<Seq<char>>,
    lines: Seq<Seq<char>>,
    addresses: Seq<Seq<char>>,
) -> (Site<H>, Seq<Seq<char>>, Seq<Seq<char>>)
    decreases names.len(),
{
    if names.len() == 0 {
        (m, lines, addresses)
    } else {
        let (m1, found) = ask_resolve::<H>(m, names[0]);
        names_resolved::<H>(m1, names.skip(1), lines + named_addresses(names[0], found), addresses + found)
    }
}

fn name_all(name: &str, addresses: &Vec<String>, out: &mut Vec<String>)
    ensures
        texts(final(out)@) == texts(old(out)@) + named_addresses(name@, texts(addresses@)),
{
    broadcast use texts_push;
    let ghost before = texts(out@);
    let ghost want = named_addresses(name@, texts(addresses@));
    let mut i: usize = 0;
    assert(before + want.take(0) =~= before);
    while i < addresses.len()
        invariant
            i <= addresses@.len(),
            want == named_addresses(name@, texts(addresses@)),
            texts(out@) == before + want.take(i as int),
        decreases addresses.len() - i,
    {
        out.push(cat3(name, ": ", addresses[i].as_str()));
        i += 1;
        assert(want[i - 1] == name@ + ": "@ + addresses@[i - 1]@);
        assert(before + want.take(i as int) =~= (before + want.take(i - 1)).push(want[i - 1]));
    }
    assert(want.take(i as int) =~= want);
}

/// The addresses that names which cannot exist are given. They are found out once.
pub open spec fn redirected<H: Host>(m: Site<H>) -> (Site<H>, Seq<Seq<char>>) {
    let (m1, known) = ask_known_redirects::<H>(m);
    match known {
        Some(addresses) => (m1, addresses),
        None => {
            let (m2, lines, found) = names_resolved::<H>(m1, bad_names(), Seq::empty(), Seq::empty());
            let m3 = if lines.len() > 0 {
                tool_logged::<H>(m2, "detected dns redirection: "@ + list_repr(lines))
            } else {
                m2
            };
            (ask_keep_redirects::<H>(m3, distinct(found)), distinct(found))
        },
    }
}

pub fn dns_redirect_ips<H: Host>(host: &mut H) -> (r: Vec<String>)
    ensures
        (final(host).machine(), texts(r@)) == redirected::<H>(old(host).machine()),
{
    if let Some(addresses) = host.known_redirects() {
        return addresses;
    }
    let names = argv3("does-not-exist.example.com.", "example.invalid.", "__cloud_init_expected_not_found__");
    let ghost all = texts(names@);
    let ghost m1 = host.machine();
    let mut lines: Vec<String> = Vec::new();
    let mut found: Vec<String> = Vec::new();
    let mut i: usize = 0;
    assert(all.skip(0) =~= all);
    assert(texts(lines@) =~= Seq::empty());
    assert(texts(found@) =~= Seq::empty());
    while i < names.len()
        invariant
            i <= names@.len(),
            all == texts(names@),
            names_resolved::<H>(host.machine(), all.skip(i as int), texts(lines@), texts(found@)) == names_resolved::<H>(
                m1,
                all,
                Seq::empty(),
                Seq::empty(),
            ),
        decreases names.len() - i,
    {
        assert(all.skip(i as int)[0] == names@[i as int]@);
        assert(all.skip(i as int).skip(1) =~= all.skip(i + 1));
        let addresses = host.resolve(names[i].as_str());
        name_all(names[i].as_str(), &addresses, &mut lines);
        append_texts(&mut found, &addresses);
        i += 1;
    }
    assert(texts(lines@).len() == lines@.len());
    if lines.len() > 0 {
        log_tool(host, cat2("detected dns redirection: ", list_repr_of(&lines).as_str()).as_str());
    }
    let out = distinct_of(&found);
    host.keep_redirects(&out);
    out
}

/// Whether an address can be reached by name. An answer that is also given for
/// names which cannot exist does not count.
pub open spec fn resolvable<H: Host>(m: Site<H>, url: Seq<char>) -> (Site<H>, bool) {
    match host_name(url) {
        None => (m, false),
        Some(name) => {
            let (m1, address) = ask_is_address::<H>(m, name);
            if address {
                (m1, true)
            } else {
                let (m2, bad) = redirected::<H>(m1);
                let (m3, found) = ask_resolve::<H>(m2, name);
                (m3, found.len() > 0 && !bad.contains(found[0]))
            }
        },
    }
}

fn is_resolvable<H: Host>(url: &str, host: &mut H) -> (r: bool)
    ensures
        (final(host).machine(), r) == resolvable::<H>(old(host).machine(), url@),
{
    let name = match url_hostname(url) {
        Some(name) => name,
        None => return false,
    };
    if host.is_address(name.as_str()) {
        return true;
    }
    let bad = dns_redirect_ips(host);
    let found = host.resolve(name.as_str());
    if found.len() == 0 {
        return false;
    }
    assert(texts(found@)[0] == found@[0]@);
    !has_text(&bad, found[0].as_str())
}

/// The first of several addresses that can be reached.
pub open spec fn first_resolvable<H: Host>(m: Site<H>, candidates: Seq<Seq<char>>) -> (Site<H>, Option<Seq<char>>)
    decreases candidates.len(),
{
    if candidates.len() == 0 {
        (m, None)
    } else {
        let (m1, found) = resolvable::<H>(m, candidates[0]);
        if found {
            (tool_logged::<H>(m1, "found working mirror: '"@ + candidates[0] + "'"@), Some(candidates[0]))
        } else {
            first_resolvable::<H>(m1, candidates.skip(1))
        }
    }
}

/// The first of several addresses that can be reached, and what is written of the
/// search.
pub open spec fn mirror_found<H: Host>(m: Site<H>, candidates: Seq<Seq<char>>) -> (Site<H>, Option<Seq<char>>) {
    first_resolvable::<H>(
        tool_logged::<H>(m, "search for mirror in candidates: '"@ + list_repr(candidates) + "'"@),
        candidates,
    )
}

pub fn search_for_mirror<H: Host>(candidates: &Vec<String>, host: &mut H) -> (r: Option<String>)
    ensures
        (final(host).machine(), opt_text(r)) == mirror_found::<H>(old(host).machine(), texts(candidates@)),
{
    log_tool(
        host,
        cat3("search for mirror in candidates: '", list_repr_of(candidates).as_str(), "'").as_str(),
    );
    let ghost all = texts(candidates@);
    let ghost m0 = host.machine();
    let mut i: usize = 0;
    assert(all.skip(0) =~= all);
    while i < candidates.len()
        invariant
            i <= candidates@.len(),
            all == texts(candidates@),
            mirror_found::<H>(old(host).machine(), all) == first_resolvable::<H>(m0, all),
            first_resolvable::<H>(host.machine(), all.skip(i as int)) == first_resolvable::<H>(m0, all),
        decreases candidates.len() - i,
    {
        assert(all.skip(i as int)[0] == candidates@[i as int]@);
        assert(all.skip(i as int).skip(1) =~= all.skip(i + 1));
        if is_resolvable(candidates[i].as_str(), host) {
            log_tool(host, cat3("found working mirror: '", candidates[i].as_str(), "'").as_str());
            return Some(candidates[i].clone());
        }
        i += 1;
    }
    None
}

/// The mirror that the name service knows, as far as that is asked for.
pub open spec fn dns_mirror<H: Host>(m: Site<H>, configured: Val, kind: Seq<char>, fqdn: Seq<char>, distro: Seq<char>) -> (
    Site<H>,
    Option<Seq<char>>,
) {
    if !truthy(configured) {
        (m, None)
    } else {
        match dns_mirrors(kind, fqdn, distro) {
            Ok(candidates) => mirror_found::<H>(m, candidates),
            Err(_) => (m, None),
        }
    }
}

pub fn search_for_mirror_dns<H: Host>(configured: &Node, mirrortype: &str, fqdn: &str, distro: &str, host: &mut H) -> (r:
    Option<String>)
    ensures
        (final(host).machine(), opt_text(r)) == dns_mirror::<H>(
            old(host).machine(),
            configured@,
            mirrortype@,
            fqdn@,
            distro@,
        ),
{
    if !py_truthy(configured) {
        return None;
    }
    match mirror_dns_candidates(mirrortype, fqdn, distro) {
        Ok(candidates) => search_for_mirror(&candidates, host),
        Err(_) => None,
    }
}

// ---------------------------------------------------------------------------
// All of it

/// The mirrors under the names that templates use: those that were found, or the
/// data source's, or the default ones.
pub open spec fn mirror_info(
    primary: Option<Seq<char>>,
    security: Option<Seq<char>>,
    arch: Seq<char>,
    datasource: Option<Seq<(Seq<char>, Val)>>,
) -> Result<Seq<(Seq<char>, Val)>, Seq<char>> {
    match (primary, datasource) {
        (Some(p), _) => {
            let s = match security {
                Some(s) => s,
                None => p,
            };
            Ok(seq![("PRIMARY"@, Val::Text(p)), ("SECURITY"@, Val::Text(s))])
        },
        (None, Some(info)) => if info.len() > 0 {
            match (get(info, "primary"@), get(info, "security"@)) {
                (None, _) => Err("'primary'"@),
                (_, None) => Err("'security'"@),
                (Some(p), Some(s)) => Ok(put(put(info, "PRIMARY"@, p), "SECURITY"@, s)),
            }
        } else {
            default_info(arch)
        },
        (None, None) => default_info(arch),
    }
}

/// The default mirrors as templates take them.
pub open spec fn default_info(arch: Seq<char>) -> Result<Seq<(Seq<char>, Val)>, Seq<char>> {
    match default_mirrors(arch) {
        Err(e) => Err(e),
        Ok(pairs) => Ok(seq![(pairs[0].0, Val::Text(pairs[0].1)), (pairs[1].0, Val::Text(pairs[1].1))]),
    }
}

fn pair_object(primary: &str, security: &str) -> (r: Object)
    ensures
        r@ == seq![("PRIMARY"@, Val::Text(primary@)), ("SECURITY"@, Val::Text(security@))],
{
    let mut out = Object::new();
    proof {
        reveal_strlit("PRIMARY");
        reveal_strlit("SECURITY");
        assert("PRIMARY"@.len() != "SECURITY"@.len());
    }
    out.insert("PRIMARY", Node::text(primary));
    proof {
        crate::value::index_of_is_first(out@, "SECURITY"@);
    }
    out.insert("SECURITY", Node::text(security));
    assert(out@ =~= seq![("PRIMARY"@, Val::Text(primary@)), ("SECURITY"@, Val::Text(security@))]);
    out
}

pub fn update_mirror_info(
    pmirror: Option<&str>,
    smirror: Option<&str>,
    arch: &str,
    datasource_mirrors: Option<&Object>,
) -> (r: Result<Object, String>)
    ensures
        object_result(r) == mirror_info(
            opt_str(pmirror),
            opt_str(smirror),
            arch@,
            match datasource_mirrors {
                Some(o) => Some(o@),
                None => None,
            },
        ),
{
    if let Some(p) = pmirror {
        let s = match smirror {
            Some(s) => s,
            None => p,
        };
        let pair = pair_object(p, s);
        assert(pair@ == mirror_info(opt_str(pmirror), opt_str(smirror), arch@, None)->Ok_0);
        return Ok(pair);
    }
    if let Some(info) = datasource_mirrors {
        if !info.is_empty() {
            let primary = match info.get("primary") {
                Some(v) => v.clone(),
                None => return Err("'primary'".to_owned()),
            };
            let security = match info.get("security") {
                Some(v) => v.clone(),
                None => return Err("'security'".to_owned()),
            };
            let mut m = info.clone();
            m.insert("PRIMARY", primary);
            m.insert("SECURITY", security);
            return Ok(m);
        }
    }
    match get_default_mirrors(arch) {
        Err(e) => Err(e),
        Ok(pairs) => {
            assert(text_pairs(pairs@).len() == 2);
            assert(text_pairs(pairs@)[0] == (pairs@[0].0@, pairs@[0].1@));
            assert(text_pairs(pairs@)[1] == (pairs@[1].0@, pairs@[1].1@));
            Ok(pair_object(pairs[0].1.as_str(), pairs[1].1.as_str()))
        },
    }
}

/// An optional text.
pub open spec fn opt_str(o: Option<&str>) -> Option<Seq<char>> {
    match o {
        Some(s) => Some(s@),
        None => None,
    }
}

/// Mirrors with the one that simple templates use.
pub open spec fn with_mirror(info: Seq<(Seq<char>, Val)>) -> Seq<(Seq<char>, Val)> {
    put(
        info,
        "MIRROR"@,
        match get(info, "PRIMARY"@) {
            Some(v) => v,
            None => Val::Null,
        },
    )
}

/// A text, or what is printed where there is none.
pub open spec fn name_or_none(o: Option<Seq<char>>) -> Seq<char> {
    match o {
        Some(s) => s,
        None => "None"@,
    }
}

fn opt_repr(o: &Option<String>) -> (r: String)
    ensures
        r@ == name_or_none(opt_text(*o)),
{
    match o {
        Some(s) => s.clone(),
        None => "None".to_owned(),
    }
}

/// Everything that is known of the mirrors.
pub open spec fn all_mirrors<H: Host>(
    m: Site<H>,
    cfg: Seq<(Seq<char>, Val)>,
    arch: Seq<char>,
    fqdn: Seq<char>,
    distro: Seq<char>,
) -> (Site<H>, Result<Seq<(Seq<char>, Val)>, Seq<char>>) {
    let (m1, primary) = mirror_for::<H>(m, cfg, "primary"@, arch, fqdn, distro);
    let m2 = logged::<H>(m1, "got primary mirror: "@ + name_or_none(primary));
    let (m3, security) = mirror_for::<H>(m2, cfg, "security"@, arch, fqdn, distro);
    let m4 = logged::<H>(m3, "got security mirror: "@ + name_or_none(security));
    let (m5, datasource) = ask_datasource_mirrors::<H>(m4, arch);
    (
        m5,
        match datasource {
            Err(e) => Err(e),
            Ok(info) => match mirror_info(primary, security, arch, Some(info)) {
                Err(e) => Err(e),
                Ok(info) => Ok(with_mirror(info)),
            },
        },
    )
}

pub fn find_apt_mirror_info<H: Host>(cfg: &Object, arch: &str, fqdn: &str, distro: &str, host: &mut H) -> (r: Result<
    Object,
    String,
>)
    ensures
        (final(host).machine(), object_result(r)) == all_mirrors::<H>(
            old(host).machine(),
            cfg@,
            arch@,
            fqdn@,
            distro@,
        ),
{
    let primary = get_mirror(cfg, "primary", arch, fqdn, distro, host);
    log_debug(host, cat2("got primary mirror: ", opt_repr(&primary).as_str()).as_str());
    let security = get_mirror(cfg, "security", arch, fqdn, distro, host);
    log_debug(host, cat2("got security mirror: ", opt_repr(&security).as_str()).as_str());
    let datasource = match host.datasource_mirrors(arch) {
        Ok(info) => info,
        Err(e) => return Err(e),
    };
    let p = match &primary {
        Some(s) => Some(s.as_str()),
        None => None,
    };
    let s = match &security {
        Some(s) => Some(s.as_str()),
        None => None,
    };
    let mut info = match update_mirror_info(p, s, arch, Some(&datasource)) {
        Ok(info) => info,
        Err(e) => return Err(e),
    };
    let first = match info.get("PRIMARY") {
        Some(v) => v.clone(),
        None => Node::Null,
    };
    info.insert("MIRROR", first);
    Ok(info)
}

/// The zone that a data source names: at the top under either spelling, or under
/// its placement.
pub open spec fn zone(metadata: Seq<(Seq<char>, Val)>) -> Option<Seq<char>> {
    let top = match get(metadata, "availability-zone"@) {
        Some(v) => Some(v),
        None => get(metadata, "availability_zone"@),
    };
    let nested = match get(metadata, "placement"@) {
        Some(Val::Object(placement)) => match get(placement, "availability-zone"@) {
            Some(Val::Text(s)) => Some(s),
            _ => None,
        },
        _ => None,
    };
    match top {
        Some(Val::Text(s)) => if s.len() > 0 {
            Some(s)
        } else {
            nested
        },
        _ => nested,
    }
}

pub fn availability_zone(metadata: &Object) -> (r: Option<String>)
    ensures
        opt_text(r) == zone(metadata@),
{
    let top = match metadata.get("availability-zone") {
        Some(v) => Some(v),
        None => metadata.get("availability_zone"),
    };
    if let Some(Node::Text(s)) = top {
        if !s.as_str().is_empty() {
            return Some(s.clone());
        }
    }
    match metadata.get("placement") {
        Some(Node::Object(placement)) => match placement.get("availability-zone") {
            Some(Node::Text(s)) => Some(s.clone()),
            _ => None,
        },
        _ => None,
    }
}

// ---------------------------------------------------------------------------
// What apt has of a mirror

/// The name under which apt keeps what it has of a mirror.
pub open spec fn list_prefix(mirror: Seq<char>) -> Seq<char> {
    let bare = if ends(mirror, "/"@) {
        mirror.drop_last()
    } else {
        mirror
    };
    let place = match split_once(bare, "://"@) {
        Some((_, rest)) => rest,
        None => bare,
    };
    replaced(place, "/"@, "_"@)
}

pub fn mirrorurl_to_apt_fileprefix(mirror: &str) -> (r: String)
    ensures
        r@ == list_prefix(mirror@),
{
    proof {
        reveal_strlit("/");
    }
    let bare = if ends_with(mirror, "/") {
        let a = chars_of(mirror);
        let n: usize = a.len() - 1;
        let cut = slice_text(&a, 0, n);
        assert(cut@ =~= mirror@.drop_last());
        cut
    } else {
        mirror.to_owned()
    };
    let place = match split_at_first(bare.as_str(), "://") {
        Some((_, rest)) => rest,
        None => bare,
    };
    replace(place.as_str(), "/", "_")
}

/// Files whose names begin in one way, and how they are to begin.
#[derive(Debug, Clone, PartialEq, Eq)]
pub struct ListRename {
    pub from_prefix: String,
    pub to_prefix: String,
}

/// The renaming for one mirror, if it moved.
pub open spec fn list_rename(
    mirrors: Seq<(Seq<char>, Val)>,
    name: Seq<char>,
    default: Seq<char>,
    dir: Seq<char>,
) -> Option<(Seq<char>, Seq<char>)> {
    match get(mirrors, name) {
        None => None,
        Some(v) => {
            let from = dir + "/"@ + list_prefix(default);
            let to = dir + "/"@ + list_prefix(show(v));
            if truthy(v) && from != to {
                Some((from, to))
            } else {
                None
            }
        },
    }
}

/// A list with an item behind it, where there is one.
pub open spec fn with_item<T>(list: Seq<T>, item: Option<T>) -> Seq<T> {
    match item {
        Some(x) => list.push(x),
        None => list,
    }
}

/// The renamings for mirrors that are not the default ones.
pub open spec fn list_renames(mirrors: Seq<(Seq<char>, Val)>, arch: Seq<char>, dir: Seq<char>) -> Result<
    Seq<(Seq<char>, Seq<char>)>,
    Seq<char>,
> {
    match default_mirrors(arch) {
        Err(e) => Err(e),
        Ok(pairs) => Ok(
            with_item(
                with_item(Seq::empty(), list_rename(mirrors, pairs[0].0, pairs[0].1, dir)),
                list_rename(mirrors, pairs[1].0, pairs[1].1, dir),
            ),
        ),
    }
}

pub open spec fn rename_pairs(v: Seq<ListRename>) -> Seq<(Seq<char>, Seq<char>)> {
    Seq::new(v.len(), |i: int| (v[i].from_prefix@, v[i].to_prefix@))
}

fn list_rename_of(mirrors: &Object, name: &str, default: &str, dir: &str) -> (r: Option<ListRename>)
    ensures
        match r {
            Some(x) => list_rename(mirrors@, name@, default@, dir@) == Some((x.from_prefix@, x.to_prefix@)),
            None => list_rename(mirrors@, name@, default@, dir@) is None,
        },
{
    let v = match mirrors.get(name) {
        Some(v) => v,
        None => return None,
    };
    if !py_truthy(v) {
        return None;
    }
    let from_prefix = cat3(dir, "/", mirrorurl_to_apt_fileprefix(default).as_str());
    let to_prefix = cat3(dir, "/", mirrorurl_to_apt_fileprefix(py_str(v).as_str()).as_str());
    if same(from_prefix.as_str(), to_prefix.as_str()) {
        return None;
    }
    Some(ListRename { from_prefix, to_prefix })
}

pub fn plan_apt_list_renames(new_mirrors: &Object, arch: &str, lists_dir: &str) -> (r: Result<Vec<ListRename>, String>)
    ensures
        match r {
            Ok(v) => list_renames(new_mirrors@, arch@, lists_dir@) == Ok::<Seq<(Seq<char>, Seq<char>)>, Seq<char>>(
                rename_pairs(v@),
            ),
            Err(e) => list_renames(new_mirrors@, arch@, lists_dir@) == Err::<Seq<(Seq<char>, Seq<char>)>, Seq<char>>(e@),
        },
{
    let pairs = match get_default_mirrors(arch) {
        Ok(pairs) => pairs,
        Err(e) => return Err(e),
    };
    assert(text_pairs(pairs@).len() == 2);
    assert(text_pairs(pairs@)[0] == (pairs@[0].0@, pairs@[0].1@));
    assert(text_pairs(pairs@)[1] == (pairs@[1].0@, pairs@[1].1@));
    let mut out: Vec<ListRename> = Vec::new();
    if let Some(x) = list_rename_of(new_mirrors, pairs[0].0.as_str(), pairs[0].1.as_str(), lists_dir) {
        out.push(x);
    }
    let ghost first = with_item(
        Seq::empty(),
        list_rename(new_mirrors@, pairs@[0].0@, pairs@[0].1@, lists_dir@),
    );
    assert(rename_pairs(out@) =~= first);
    if let Some(x) = list_rename_of(new_mirrors, pairs[1].0.as_str(), pairs[1].1.as_str(), lists_dir) {
        out.push(x);
    }
    assert(rename_pairs(out@) =~= with_item(
        first,
        list_rename(new_mirrors@, pairs@[1].0@, pairs@[1].1@, lists_dir@),
    ));
    Ok(out)
}

// ---------------------------------------------------------------------------
// Names of files

/// Whether a text has the form of a pattern, in which a star stands for any text.
pub open spec fn star_matches(pattern: Seq<char>, text: Seq<char>) -> bool
    decreases pattern.len(), text.len(),
{
    if pattern.len() == 0 {
        text.len() == 0
    } else if pattern[0] == '*' {
        star_matches(pattern.skip(1), text) || (text.len() > 0 && star_matches(pattern, text.skip(1)))
    } else {
        text.len() > 0 && text[0] == pattern[0] && star_matches(pattern.skip(1), text.skip(1))
    }
}

fn star_match_at(pattern: &Vec<char>, i: usize, text: &Vec<char>, j: usize) -> (r: bool)
    requires
        i <= pattern@.len(),
        j <= text@.len(),
    ensures
        r == star_matches(pattern@.skip(i as int), text@.skip(j as int)),
    decreases pattern@.len() - i, text@.len() - j,
{
    let ghost p = pattern@.skip(i as int);
    let ghost t = text@.skip(j as int);
    if i == pattern.len() {
        return j == text.len();
    }
    assert(p.skip(1) =~= pattern@.skip(i + 1));
    assert(j < text@.len() ==> t.skip(1) =~= text@.skip(j + 1));
    if pattern[i] == '*' {
        star_match_at(pattern, i + 1, text, j) || (j < text.len() && star_match_at(pattern, i, text, j + 1))
    } else {
        j < text.len() && text[j] == pattern[i] && star_match_at(pattern, i + 1, text, j + 1)
    }
}

pub fn star_match(pattern: &str, text: &str) -> (r: bool)
    ensures
        r == star_matches(pattern@, text@),
{
    let p = chars_of(pattern);
    let t = chars_of(text);
    assert(p@.skip(0) =~= p@);
    assert(t@.skip(0) =~= t@);
    star_match_at(&p, 0, &t, 0)
}

/// The names that have the form of a pattern and are not hidden, in order.
pub open spec fn names_matching(names: Seq<Seq<char>>, pattern: Seq<char>) -> Seq<Seq<char>>
    decreases names.len(),
{
    if names.len() == 0 {
        Seq::empty()
    } else {
        let before = names_matching(names.drop_last(), pattern);
        let name = names.last();
        if !crate::text::starts(name, "."@) && star_matches(pattern, name) {
            with_text(before, name)
        } else {
            before
        }
    }
}

pub fn glob_names(names: &Vec<String>, pattern: &str) -> (r: Vec<String>)
    ensures
        texts(r@) == names_matching(texts(names@), pattern@),
{
    let ghost all = texts(names@);
    let mut out: Vec<String> = Vec::new();
    let mut i: usize = 0;
    assert(texts(out@) =~= names_matching(all.take(0), pattern@));
    while i < names.len()
        invariant
            i <= names@.len(),
            all == texts(names@),
            texts(out@) == names_matching(all.take(i as int), pattern@),
        decreases names.len() - i,
    {
        assert(all[i as int] == names@[i as int]@);
        assert(all.take(i + 1).drop_last() =~= all.take(i as int));
        let name = names[i].as_str();
        if !crate::text::starts_with(name, ".") && star_match(pattern, name) {
            insert_text(&mut out, name);
        }
        i += 1;
    }
    assert(all.take(i as int) =~= all);
    out
}

}
