//! The older forms of the configuration, brought into the one that is used.

use vstd::prelude::*;

use crate::cc::apt_configure::host::{ask_draw_name, log_debug, logged, object_result, Host, Site};
use crate::cc::{text_result, unit_result};
use crate::show::{list_debug_of, list_debugged, repr, repr_of};
use crate::text::{cat3, cat6, texts, texts_push};
use crate::value::{
    equal, get, get_after_put, get_after_remove, index_of_is_first, keys_distinct, put, remove_keeps_others, swap_removed, vals, Node,
    Object, Val,
};

verus! {

/// The older keys, each with the key that takes its place. One without is folded
/// into the entry of the primary mirror.
pub open spec fn old_keys() -> Seq<(Seq<char>, Option<Seq<char>>)> {
    seq![
        ("apt_sources"@, Some("sources"@)),
        ("apt_mirror"@, None),
        ("apt_mirror_search"@, None),
        ("apt_mirror_search_dns"@, None),
        ("apt_proxy"@, Some("proxy"@)),
        ("apt_http_proxy"@, Some("http_proxy"@)),
        ("apt_ftp_proxy"@, Some("https_proxy"@)),
        ("apt_https_proxy"@, Some("ftp_proxy"@)),
        ("apt_preserve_sources_list"@, Some("preserve_sources_list"@)),
        ("apt_custom_sources_list"@, Some("sources_list"@)),
        ("add_apt_repo_match"@, Some("add_apt_repo_match"@)),
    ]
}

/// The keys that are folded into the entry of the primary mirror, and their names
/// there.
pub open spec fn mirror_keys() -> Seq<(Seq<char>, Option<Seq<char>>)> {
    seq![
        ("apt_mirror"@, Some("uri"@)),
        ("apt_mirror_search"@, Some("search"@)),
        ("apt_mirror_search_dns"@, Some("search_dns"@)),
    ]
}

/// A key and the one that takes its place.
struct Renamed {
    old_key: &'static str,
    new_key: Option<&'static str>,
}

spec fn renames(t: Seq<Renamed>) -> Seq<(Seq<char>, Option<Seq<char>>)> {
    Seq::new(
        t.len(),
        |i: int|
            (
                t[i].old_key@,
                match t[i].new_key {
                    Some(k) => Some(k@),
                    None => None,
                },
            ),
    )
}

fn moved(old_key: &'static str, new_key: &'static str) -> (r: Renamed)
    ensures
        r.old_key@ == old_key@,
        r.new_key == Some(new_key),
{
    Renamed { old_key, new_key: Some(new_key) }
}

fn folded(old_key: &'static str) -> (r: Renamed)
    ensures
        r.old_key@ == old_key@,
        r.new_key is None,
{
    Renamed { old_key, new_key: None }
}

fn old_key_table() -> (r: Vec<Renamed>)
    ensures
        renames(r@) == old_keys(),
{
    let mut t: Vec<Renamed> = Vec::new();
    t.push(moved("apt_sources", "sources"));
    t.push(folded("apt_mirror"));
    t.push(folded("apt_mirror_search"));
    t.push(folded("apt_mirror_search_dns"));
    t.push(moved("apt_proxy", "proxy"));
    t.push(moved("apt_http_proxy", "http_proxy"));
    t.push(moved("apt_ftp_proxy", "https_proxy"));
    t.push(moved("apt_https_proxy", "ftp_proxy"));
    t.push(moved("apt_preserve_sources_list", "preserve_sources_list"));
    t.push(moved("apt_custom_sources_list", "sources_list"));
    t.push(moved("add_apt_repo_match", "add_apt_repo_match"));
    assert(renames(t@) =~= old_keys());
    t
}

fn mirror_key_table() -> (r: Vec<Renamed>)
    ensures
        renames(r@) == mirror_keys(),
{
    let mut t: Vec<Renamed> = Vec::new();
    t.push(moved("apt_mirror", "uri"));
    t.push(moved("apt_mirror_search", "search"));
    t.push(moved("apt_mirror_search_dns", "search_dns"));
    assert(renames(t@) =~= mirror_keys());
    t
}

// ---------------------------------------------------------------------------
// A list of sources

/// A key that a mapping does not hold: names are drawn until one of them, with an
/// ending, is free. At most `fuel` of them are drawn.
pub open spec fn free_key<H: Host>(m: Site<H>, taken: Seq<(Seq<char>, Val)>, postfix: Seq<char>, fuel: nat) -> (
    Site<H>,
    Result<Seq<char>, Seq<char>>,
)
    decreases fuel,
{
    if fuel == 0 {
        (m, Err("no key is free"@))
    } else {
        let (m1, name) = ask_draw_name::<H>(m);
        let key = name + "_"@ + postfix;
        if get(taken, key) is None {
            (m1, Ok(key))
        } else {
            free_key::<H>(m1, taken, postfix, (fuel - 1) as nat)
        }
    }
}

/// A key that a mapping does not hold, with an ending. The number of names that are
/// drawn for it is bounded only by the largest 64-bit number.
pub fn rand_dict_key<H: Host>(dictionary: &Object, postfix: &str, host: &mut H) -> (r: Result<String, String>)
    ensures
        (final(host).machine(), text_result(r)) == free_key::<H>(
            old(host).machine(),
            dictionary@,
            postfix@,
            u64::MAX as nat,
        ),
        r matches Ok(key) ==> get(dictionary@, key@) is None,
{
    let mut fuel: u64 = u64::MAX;
    while fuel > 0
        invariant
            free_key::<H>(host.machine(), dictionary@, postfix@, fuel as nat) == free_key::<H>(
                old(host).machine(),
                dictionary@,
                postfix@,
                u64::MAX as nat,
            ),
        decreases fuel,
    {
        let name = host.draw_name();
        let key = cat3(name.as_str(), "_", postfix);
        if !dictionary.contains_key(key.as_str()) {
            return Ok(key);
        }
        fuel -= 1;
    }
    Err("no key is free".to_owned())
}

/// An entry of a list of sources, which need not be a mapping.
pub open spec fn listed_entry(item: Val) -> Seq<(Seq<char>, Val)> {
    match item {
        Val::Object(entry) => entry,
        _ => Seq::empty(),
    }
}

/// The file's name of an entry of a list of sources, where it has one.
pub open spec fn listed_name(item: Val) -> Option<Seq<char>> {
    match get(listed_entry(item), "filename"@) {
        Some(Val::Text(name)) => Some(name),
        _ => None,
    }
}

/// An entry of a list of sources with the usual name.
pub open spec fn usually_named(item: Val) -> Val {
    Val::Object(put(listed_entry(item), "filename"@, Val::Text("cloud_config_sources.list"@)))
}

/// The mapping that a list of sources becomes. An entry is put under its file's
/// name; one without gets the usual name, and a key that is free.
pub open spec fn sources_by_name<H: Host>(
    m: Site<H>,
    items: Seq<Val>,
    sources: Seq<(Seq<char>, Val)>,
) -> (Site<H>, Result<Seq<(Seq<char>, Val)>, Seq<char>>)
    decreases items.len(),
{
    if items.len() == 0 {
        (m, Ok(sources))
    } else {
        match listed_name(items[0]) {
            Some(name) => sources_by_name::<H>(
                m,
                items.skip(1),
                put(sources, name, Val::Object(listed_entry(items[0]))),
            ),
            None => {
                let (m1, key) = free_key::<H>(m, sources, "cloud_config_sources.list"@, u64::MAX as nat);
                match key {
                    Err(e) => (m1, Err(e)),
                    Ok(key) => sources_by_name::<H>(m1, items.skip(1), put(sources, key, usually_named(items[0]))),
                }
            },
        }
    }
}

/// The mapping of sources, which may be written as a list.
pub open spec fn sources_mapping<H: Host>(m: Site<H>, sources: Val) -> (
    Site<H>,
    Result<Seq<(Seq<char>, Val)>, Seq<char>>,
) {
    let m0 = logged::<H>(m, "Config key 'apt_sources' is deprecated in 22.1. Use 'apt' instead"@);
    match sources {
        Val::Array(items) => {
            let m1 = logged::<H>(m0, "apt config: convert V1 to V2 format (source list to dict)"@);
            sources_by_name::<H>(m1, items, Seq::empty())
        },
        Val::Object(mapping) => (m0, Ok(mapping)),
        _ => (m0, Err("unknown apt_sources format"@)),
    }
}

/// A source's entry, which need not be a mapping.
fn entry_of(item: &Node) -> (r: Object)
    ensures
        r@ == listed_entry(item@),
{
    match item {
        Node::Object(entry) => entry.clone(),
        _ => Object::new(),
    }
}

/// The name of a source's file.
fn file_name(entry: &Object) -> (r: Option<String>)
    ensures
        match r {
            Some(name) => get(entry@, "filename"@) == Some(Val::Text(name@)),
            None => !(get(entry@, "filename"@) matches Some(Val::Text(_))),
        },
{
    match entry.get("filename") {
        Some(Node::Text(name)) => Some(name.clone()),
        _ => None,
    }
}

pub fn convert_v1_to_v2_apt_format<H: Host>(srclist: &Node, host: &mut H) -> (r: Result<Object, String>)
    ensures
        (final(host).machine(), object_result(r)) == sources_mapping::<H>(old(host).machine(), srclist@),
{
    log_debug(host, "Config key 'apt_sources' is deprecated in 22.1. Use 'apt' instead");
    match srclist {
        Node::Array(items) => {
            log_debug(host, "apt config: convert V1 to V2 format (source list to dict)");
            let ghost all = vals(items@);
            let ghost m0 = host.machine();
            let mut sources = Object::new();
            let mut i: usize = 0;
            assert(all.skip(0) =~= all);
            while i < items.len()
                invariant
                    i <= items@.len(),
                    all == vals(items@),
                    sources_mapping::<H>(old(host).machine(), srclist@) == sources_by_name::<H>(m0, all, Seq::empty()),
                    sources_by_name::<H>(host.machine(), all.skip(i as int), sources@) == sources_by_name::<H>(
                        m0,
                        all,
                        Seq::empty(),
                    ),
                decreases items.len() - i,
            {
                assert(all.skip(i as int)[0] == items@[i as int]@);
                assert(all.skip(i as int).skip(1) =~= all.skip(i + 1));
                let mut entry = entry_of(&items[i]);
                match file_name(&entry) {
                    Some(name) => {
                        sources.insert(name.as_str(), Node::Object(entry));
                    },
                    None => {
                        entry.insert("filename", Node::text("cloud_config_sources.list"));
                        let key = match rand_dict_key(&sources, "cloud_config_sources.list", host) {
                            Ok(key) => key,
                            Err(e) => return Err(e),
                        };
                        sources.insert(key.as_str(), Node::Object(entry));
                    },
                }
                i += 1;
            }
            Ok(sources)
        },
        Node::Object(mapping) => Ok(mapping.clone()),
        _ => Err("unknown apt_sources format".to_owned()),
    }
}

/// The letter or digit with a number.
pub open spec fn letter(n: int) -> char {
    if n < 26 {
        (n + 97) as char
    } else if n < 52 {
        (n - 26 + 65) as char
    } else {
        (n - 52 + 48) as char
    }
}

/// The letters and digits that a number that was drawn stands for, the lowest
/// first.
pub open spec fn drawn(draw: nat, len: nat) -> Seq<char>
    decreases len,
{
    if len == 0 {
        Seq::empty()
    } else {
        seq![letter((draw % 62) as int)] + drawn(draw / 62, (len - 1) as nat)
    }
}

/// The beginning of a key that no entry names.
pub fn rand_str(draw: u64, len: usize) -> (r: String)
    ensures
        r@ == drawn(draw as nat, len as nat),
{
    let mut out = String::new();
    let mut rest: u64 = draw;
    let mut left: usize = len;
    assert(out@ + drawn(draw as nat, len as nat) =~= drawn(draw as nat, len as nat));
    while left > 0
        invariant
            out@ + drawn(rest as nat, left as nat) == drawn(draw as nat, len as nat),
        decreases left,
    {
        let n: u8 = (rest % 62) as u8;
        let c: char = if n < 26 {
            (n + 97) as char
        } else if n < 52 {
            (n - 26 + 65) as char
        } else {
            (n - 52 + 48) as char
        };
        assert(c == letter((rest as nat % 62) as int));
        let ghost before = out@;
        let ghost tail = drawn(rest as nat / 62, (left - 1) as nat);
        out.push(c);
        assert(out@ + tail =~= before + (seq![c] + tail));
        rest = rest / 62;
        left = left - 1;
    }
    assert(out@ =~= out@ + Seq::<char>::empty());
    out
}

// ---------------------------------------------------------------------------
// The flat keys

/// Whether a value stands for nothing.
pub open spec fn is_blank(v: Val) -> bool {
    v is Null || v == Val::Text(Seq::empty())
}

fn blank(v: &Node) -> (r: bool)
    ensures
        r == is_blank(v@),
{
    match v {
        Node::Null => true,
        Node::Text(s) => {
            assert(s@.len() == 0 ==> s@ =~= Seq::empty());
            s.as_str().is_empty()
        },
        _ => false,
    }
}

/// A configuration without the older keys that stand for nothing, and the older
/// keys that are left.
pub open spec fn swept(cfg: Seq<(Seq<char>, Val)>, table: Seq<(Seq<char>, Option<Seq<char>>)>) -> (
    Seq<(Seq<char>, Val)>,
    Seq<(Seq<char>, Option<Seq<char>>)>,
)
    decreases table.len(),
{
    if table.len() == 0 {
        (cfg, Seq::empty())
    } else {
        match get(cfg, table[0].0) {
            None => swept(cfg, table.skip(1)),
            Some(v) => if is_blank(v) {
                swept(swap_removed(cfg, table[0].0), table.skip(1))
            } else {
                let (rest, left) = swept(cfg, table.skip(1));
                (rest, seq![table[0]] + left)
            },
        }
    }
}

/// One mapping with a key moved out of it, another with the value put in, and
/// whether there was anything to move. Null is nothing.
pub open spec fn key_moved(
    from: Seq<(Seq<char>, Val)>,
    to: Seq<(Seq<char>, Val)>,
    old_key: Seq<char>,
    new_key: Seq<char>,
) -> (Seq<(Seq<char>, Val)>, Seq<(Seq<char>, Val)>, bool) {
    match get(from, old_key) {
        None | Some(Val::Null) => (from, to, false),
        Some(v) => (swap_removed(from, old_key), put(to, new_key, v), true),
    }
}

/// Two mappings with the keys of a table moved from one to the other.
pub open spec fn keys_moved(
    from: Seq<(Seq<char>, Val)>,
    to: Seq<(Seq<char>, Val)>,
    table: Seq<(Seq<char>, Option<Seq<char>>)>,
    any: bool,
) -> (Seq<(Seq<char>, Val)>, Seq<(Seq<char>, Val)>, bool)
    decreases table.len(),
{
    if table.len() == 0 {
        (from, to, any)
    } else {
        match table[0].1 {
            None => keys_moved(from, to, table.skip(1), any),
            Some(new_key) => {
                let (f, t, moved) = key_moved(from, to, table[0].0, new_key);
                keys_moved(f, t, table.skip(1), any || moved)
            },
        }
    }
}

/// The entry of a mirror before anything is known of it.
pub open spec fn bare_mirror() -> Seq<(Seq<char>, Val)> {
    seq![("arches"@, Val::Array(seq![Val::Text("default"@)]))]
}

/// Two mappings with the keys of mirrors folded into the entry of the primary
/// one.
pub open spec fn mirror_moved(from: Seq<(Seq<char>, Val)>, to: Seq<(Seq<char>, Val)>) -> (
    Seq<(Seq<char>, Val)>,
    Seq<(Seq<char>, Val)>,
) {
    let (f, mirror, any) = keys_moved(from, bare_mirror(), mirror_keys(), false);
    (
        f,
        if any {
            put(to, "primary"@, Val::Array(seq![Val::Object(mirror)]))
        } else {
            to
        },
    )
}

/// The first older key that a mapping still holds.
pub open spec fn first_left(cfg: Seq<(Seq<char>, Val)>, table: Seq<(Seq<char>, Option<Seq<char>>)>) -> Option<Seq<char>>
    decreases table.len(),
{
    if table.len() == 0 {
        None
    } else {
        match get(cfg, table[0].0) {
            None | Some(Val::Null) => first_left(cfg, table.skip(1)),
            Some(v) => Some(table[0].0),
        }
    }
}

/// A configuration without its older keys, each of which must agree with what the
/// newer form says.
pub open spec fn agreed(
    cfg: Seq<(Seq<char>, Val)>,
    apt: Seq<(Seq<char>, Val)>,
    table: Seq<(Seq<char>, Option<Seq<char>>)>,
) -> (Seq<(Seq<char>, Val)>, Result<(), Seq<char>>)
    decreases table.len(),
{
    if table.len() == 0 {
        (cfg, Ok(()))
    } else {
        let old_value = get(cfg, table[0].0);
        let rest = swap_removed(cfg, table[0].0);
        let new_value = match table[0].1 {
            Some(new_key) => get(apt, new_key),
            None => None,
        };
        match (old_value, new_value) {
            (_, None) | (_, Some(Val::Null)) => agreed(rest, apt, table.skip(1)),
            (Some(a), Some(b)) => if equal(a, b) {
                agreed(rest, apt, table.skip(1))
            } else {
                (
                    rest,
                    Err(
                        "Old and New apt format defined with unequal values "@ + repr(a) + " vs "@ + repr(b) + " @ "@
                            + table[0].0,
                    ),
                )
            },
            (None, Some(b)) => (
                rest,
                Err(
                    "Old and New apt format defined with unequal values "@ + "None"@ + " vs "@ + repr(b) + " @ "@
                        + table[0].0,
                ),
            ),
        }
    }
}

/// A configuration with its flat keys moved under `apt`.
///
/// Where there is a mapping under `apt` already it stays as it is, and the flat
/// keys must agree with it.
pub open spec fn gathered(cfg: Seq<(Seq<char>, Val)>) -> (Seq<(Seq<char>, Val)>, Result<(), Seq<char>>) {
    let (clean, left) = swept(cfg, old_keys());
    if left.len() == 0 {
        (clean, Ok(()))
    } else {
        match get(clean, "apt"@) {
            Some(Val::Object(apt)) => agreed(clean, apt, left),
            _ => {
                let (f, t, any) = keys_moved(clean, Seq::empty(), old_keys(), false);
                let (rest, apt) = mirror_moved(f, t);
                match first_left(rest, old_keys()) {
                    Some(key) => (rest, Err("old apt key '"@ + key + "' left after conversion"@)),
                    None => (put(rest, "apt"@, Val::Object(apt)), Ok(())),
                }
            },
        }
    }
}

/// The older keys of a table.
pub open spec fn keys_of(table: Seq<(Seq<char>, Option<Seq<char>>)>) -> Seq<Seq<char>> {
    Seq::new(table.len(), |i: int| table[i].0)
}

fn old_keys_of(table: &Vec<Renamed>) -> (r: Vec<String>)
    ensures
        texts(r@) == keys_of(renames(table@)),
{
    broadcast use texts_push;
    let ghost want = keys_of(renames(table@));
    let mut out: Vec<String> = Vec::new();
    let mut i: usize = 0;
    assert(texts(out@) =~= want.take(0));
    while i < table.len()
        invariant
            i <= table@.len(),
            want == keys_of(renames(table@)),
            texts(out@) == want.take(i as int),
        decreases table.len() - i,
    {
        out.push(table[i].old_key.to_owned());
        i += 1;
        assert(want.take(i as int) =~= want.take(i - 1).push(want[i - 1]));
    }
    assert(want.take(i as int) =~= want);
    out
}

/// The lines that are written when flat keys are moved under `apt`: which they are,
/// and that the newer form is there as well.
pub open spec fn gathering_told<H: Host>(m: Site<H>, cfg: Seq<(Seq<char>, Val)>) -> Site<H> {
    let (clean, left) = swept(cfg, old_keys());
    if left.len() == 0 {
        m
    } else {
        let m1 = logged::<H>(
            m,
            "The following config key(s): "@ + list_debugged(keys_of(left)) + " are deprecated in 22.1"@,
        );
        match get(clean, "apt"@) {
            Some(Val::Object(apt)) => logged::<H>(
                m1,
                "Support for combined old and new apt module keys is deprecated in 22.1"@,
            ),
            _ => m1,
        }
    }
}

fn convert_key(from: &mut Object, to: &mut Object, old_key: &str, new_key: &str) -> (r: bool)
    ensures
        (final(from)@, final(to)@, r) == key_moved(old(from)@, old(to)@, old_key@, new_key@),
{
    let value = match from.get(old_key) {
        None => return false,
        Some(Node::Null) => return false,
        Some(v) => v.clone(),
    };
    to.insert(new_key, value);
    let _ = from.remove(old_key);
    true
}

fn convert_keys(from: &mut Object, to: &mut Object, table: &Vec<Renamed>) -> (r: bool)
    ensures
        (final(from)@, final(to)@, r) == keys_moved(old(from)@, old(to)@, renames(table@), false),
{
    let ghost all = renames(table@);
    let mut any = false;
    let mut i: usize = 0;
    assert(all.skip(0) =~= all);
    while i < table.len()
        invariant
            i <= table@.len(),
            all == renames(table@),
            keys_moved(from@, to@, all.skip(i as int), any) == keys_moved(old(from)@, old(to)@, all, false),
        decreases table.len() - i,
    {
        assert(all.skip(i as int)[0] == all[i as int]);
        assert(all.skip(i as int).skip(1) =~= all.skip(i + 1));
        if let Some(new_key) = table[i].new_key {
            if convert_key(from, to, table[i].old_key, new_key) {
                any = true;
            }
        }
        i += 1;
    }
    any
}

fn convert_mirror(from: &mut Object, to: &mut Object)
    ensures
        (final(from)@, final(to)@) == mirror_moved(old(from)@, old(to)@),
{
    let mut arches: Vec<Node> = Vec::new();
    arches.push(Node::text("default"));
    assert(vals(arches@) =~= seq![Val::Text("default"@)]);
    let mut mirror = Object::new();
    mirror.insert("arches", Node::Array(arches));
    assert(mirror@ =~= bare_mirror());
    if convert_keys(from, &mut mirror, &mirror_key_table()) {
        let mut entries: Vec<Node> = Vec::new();
        let ghost entry = mirror@;
        entries.push(Node::Object(mirror));
        assert(vals(entries@) =~= seq![Val::Object(entry)]);
        to.insert("primary", Node::Array(entries));
    }
}

/// Takes out the older keys that stand for nothing; the others, in order.
fn sweep(cfg: &mut Object, table: &Vec<Renamed>) -> (r: Vec<Renamed>)
    ensures
        (final(cfg)@, renames(r@)) == swept(old(cfg)@, renames(table@)),
{
    let ghost all = renames(table@);
    let ghost cfg0 = cfg@;
    let mut left: Vec<Renamed> = Vec::new();
    let mut i: usize = 0;
    assert(all.skip(0) =~= all);
    assert(renames(left@) =~= Seq::empty());
    assert(Seq::<(Seq<char>, Option<Seq<char>>)>::empty() + swept(cfg0, all).1 =~= swept(cfg0, all).1);
    while i < table.len()
        invariant
            i <= table@.len(),
            all == renames(table@),
            swept(cfg@, all.skip(i as int)).0 == swept(cfg0, all).0,
            renames(left@) + swept(cfg@, all.skip(i as int)).1 == swept(cfg0, all).1,
        decreases table.len() - i,
    {
        assert(all.skip(i as int)[0] == all[i as int]);
        assert(all.skip(i as int).skip(1) =~= all.skip(i + 1));
        let found = match cfg.get(table[i].old_key) {
            None => None,
            Some(v) => Some(blank(v)),
        };
        match found {
            None => {},
            Some(true) => {
                let _ = cfg.remove(table[i].old_key);
            },
            Some(false) => {
                let ghost before = renames(left@);
                let ghost rest = swept(cfg@, all.skip(i + 1)).1;
                left.push(Renamed { old_key: table[i].old_key, new_key: table[i].new_key });
                assert(renames(left@) =~= before.push(all[i as int]));
                assert(before.push(all[i as int]) + rest =~= before + (seq![all[i as int]] + rest));
            },
        }
        i += 1;
    }
    assert(renames(left@) + Seq::<(Seq<char>, Option<Seq<char>>)>::empty() =~= renames(left@));
    left
}

fn agree(cfg: &mut Object, apt: &Object, table: &Vec<Renamed>) -> (r: Result<(), String>)
    ensures
        (final(cfg)@, unit_result(r)) == agreed(old(cfg)@, apt@, renames(table@)),
{
    let ghost all = renames(table@);
    let mut i: usize = 0;
    assert(all.skip(0) =~= all);
    while i < table.len()
        invariant
            i <= table@.len(),
            all == renames(table@),
            agreed(cfg@, apt@, all.skip(i as int)) == agreed(old(cfg)@, apt@, all),
        decreases table.len() - i,
    {
        assert(all.skip(i as int)[0] == all[i as int]);
        assert(all.skip(i as int).skip(1) =~= all.skip(i + 1));
        let old_key = table[i].old_key;
        let old_value = cfg.remove(old_key);
        let new_value = match table[i].new_key {
            Some(new_key) => apt.get(new_key),
            None => None,
        };
        match new_value {
            None => {},
            Some(Node::Null) => {},
            Some(b) => {
                let agrees = match &old_value {
                    Some(a) => a.equals(b),
                    None => false,
                };
                if !agrees {
                    let shown = match &old_value {
                        Some(a) => repr_of(a),
                        None => "None".to_owned(),
                    };
                    return Err(
                        cat6(
                            "Old and New apt format defined with unequal values ",
                            shown.as_str(),
                            " vs ",
                            repr_of(b).as_str(),
                            " @ ",
                            old_key,
                        ),
                    );
                }
            },
        }
        i += 1;
    }
    Ok(())
}

fn left_after(cfg: &Object, table: &Vec<Renamed>) -> (r: Option<&'static str>)
    ensures
        match r {
            Some(k) => first_left(cfg@, renames(table@)) == Some(k@),
            None => first_left(cfg@, renames(table@)) is None,
        },
{
    let ghost all = renames(table@);
    let mut i: usize = 0;
    assert(all.skip(0) =~= all);
    while i < table.len()
        invariant
            i <= table@.len(),
            all == renames(table@),
            first_left(cfg@, all.skip(i as int)) == first_left(cfg@, all),
        decreases table.len() - i,
    {
        assert(all.skip(i as int)[0] == all[i as int]);
        assert(all.skip(i as int).skip(1) =~= all.skip(i + 1));
        match cfg.get(table[i].old_key) {
            None => {},
            Some(Node::Null) => {},
            Some(_) => return Some(table[i].old_key),
        }
        i += 1;
    }
    None
}

/// What stands under `apt`, where it is a mapping.
fn apt_mapping(cfg: &Object) -> (r: Option<Object>)
    ensures
        match r {
            Some(apt) => get(cfg@, "apt"@) == Some(Val::Object(apt@)),
            None => !(get(cfg@, "apt"@) matches Some(Val::Object(_))),
        },
{
    match cfg.get("apt") {
        Some(Node::Object(apt)) => Some(apt.clone()),
        _ => None,
    }
}

pub fn convert_v2_to_v3_apt_format<H: Host>(cfg: &mut Object, host: &mut H) -> (r: Result<(), String>)
    ensures
        final(host).machine() == gathering_told::<H>(old(host).machine(), old(cfg)@),
        (final(cfg)@, unit_result(r)) == gathered(old(cfg)@),
{
    let table = old_key_table();
    let left = sweep(cfg, &table);
    if left.len() == 0 {
        return Ok(());
    }
    log_debug(
        host,
        cat3(
            "The following config key(s): ",
            list_debug_of(&old_keys_of(&left)).as_str(),
            " are deprecated in 22.1",
        ).as_str(),
    );
    if let Some(apt) = apt_mapping(cfg) {
        log_debug(host, "Support for combined old and new apt module keys is deprecated in 22.1");
        return agree(cfg, &apt, &left);
    }
    let mut apt = Object::new();
    let _ = convert_keys(cfg, &mut apt, &table);
    convert_mirror(cfg, &mut apt);
    if let Some(key) = left_after(cfg, &table) {
        return Err(cat3("old apt key '", key, "' left after conversion"));
    }
    cfg.insert("apt", Node::Object(apt));
    Ok(())
}

/// A configuration of any form in the form that is used.
pub open spec fn converted<H: Host>(m: Site<H>, cfg: Seq<(Seq<char>, Val)>) -> (
    Site<H>,
    Seq<(Seq<char>, Val)>,
    Result<(), Seq<char>>,
) {
    match get(cfg, "apt_sources"@) {
        None | Some(Val::Null) => (gathering_told::<H>(m, cfg), gathered(cfg).0, gathered(cfg).1),
        Some(sources) => {
            let (m1, mapping) = sources_mapping::<H>(m, sources);
            match mapping {
                Err(e) => (m1, cfg, Err(e)),
                Ok(mapping) => {
                    let cfg1 = put(cfg, "apt_sources"@, Val::Object(mapping));
                    let (after, r) = gathered(cfg1);
                    (gathering_told::<H>(m1, cfg1), after, r)
                },
            }
        },
    }
}

pub fn convert_to_v3_apt_format<H: Host>(cfg: &mut Object, host: &mut H) -> (r: Result<(), String>)
    ensures
        (final(host).machine(), final(cfg)@, unit_result(r)) == converted::<H>(old(host).machine(), old(cfg)@),
{
    let sources = match cfg.get("apt_sources") {
        None => None,
        Some(Node::Null) => None,
        Some(v) => Some(v.clone()),
    };
    if let Some(sources) = sources {
        match convert_v1_to_v2_apt_format(&sources, host) {
            Ok(mapping) => cfg.insert("apt_sources", Node::Object(mapping)),
            Err(e) => return Err(e),
        }
    }
    convert_v2_to_v3_apt_format(cfg, host)
}

// ---------------------------------------------------------------------------
// Laws

/// A key that is drawn for a mapping is one that it does not hold.
pub proof fn a_drawn_key_is_free<H: Host>(m: Site<H>, taken: Seq<(Seq<char>, Val)>, postfix: Seq<char>, fuel: nat)
    ensures
        free_key::<H>(m, taken, postfix, fuel).1 matches Ok(key) ==> get(taken, key) is None,
    decreases fuel,
{
    if fuel > 0 {
        let m1 = ask_draw_name::<H>(m).0;
        a_drawn_key_is_free::<H>(m1, taken, postfix, (fuel - 1) as nat);
    }
}

/// An entry of a list of sources that names no file never replaces another: what stands
/// under a key stays, unless a later entry names that key as its file.
pub proof fn an_unnamed_source_replaces_none<H: Host>(
    m: Site<H>,
    items: Seq<Val>,
    sources: Seq<(Seq<char>, Val)>,
    key: Seq<char>,
)
    requires
        get(sources, key) is Some,
        forall|i: int| 0 <= i < items.len() ==> listed_name(#[trigger] items[i]) != Some(key),
    ensures
        sources_by_name::<H>(m, items, sources).1 matches Ok(mapping) ==> get(mapping, key) == get(sources, key),
    decreases items.len(),
{
    if items.len() > 0 {
        assert(listed_name(items[0]) != Some(key));
        assert forall|i: int| 0 <= i < items.skip(1).len() implies listed_name(#[trigger] items.skip(1)[i]) != Some(
            key,
        ) by {
            assert(items.skip(1)[i] == items[i + 1]);
        }
        match listed_name(items[0]) {
            Some(name) => {
                let entry = Val::Object(listed_entry(items[0]));
                get_after_put(sources, name, entry, key);
                an_unnamed_source_replaces_none::<H>(m, items.skip(1), put(sources, name, entry), key);
            },
            None => {
                let (m1, drawn) = free_key::<H>(m, sources, "cloud_config_sources.list"@, u64::MAX as nat);
                a_drawn_key_is_free::<H>(m, sources, "cloud_config_sources.list"@, u64::MAX as nat);
                if let Ok(drawn) = drawn {
                    get_after_put(sources, drawn, usually_named(items[0]), key);
                    an_unnamed_source_replaces_none::<H>(
                        m1,
                        items.skip(1),
                        put(sources, drawn, usually_named(items[0])),
                        key,
                    );
                }
            },
        }
    }
}

/// Of a list of sources none of which names a file none is lost: each is in the mapping,
/// in order, behind what was there.
pub proof fn no_unnamed_source_is_lost<H: Host>(m: Site<H>, items: Seq<Val>, sources: Seq<(Seq<char>, Val)>)
    requires
        forall|i: int| 0 <= i < items.len() ==> listed_name(#[trigger] items[i]) is None,
    ensures
        sources_by_name::<H>(m, items, sources).1 matches Ok(mapping) ==> {
            &&& mapping.len() == sources.len() + items.len()
            &&& mapping.take(sources.len() as int) == sources
            &&& forall|i: int|
                0 <= i < items.len() ==> (#[trigger] mapping[sources.len() + i]).1 == usually_named(items[i])
        },
    decreases items.len(),
{
    if items.len() == 0 {
        assert(sources.take(sources.len() as int) =~= sources);
    } else {
        assert(listed_name(items[0]) is None);
        let rest = items.skip(1);
        assert forall|i: int| 0 <= i < rest.len() implies listed_name(#[trigger] rest[i]) is None by {
            assert(rest[i] == items[i + 1]);
        }
        let (m1, drawn) = free_key::<H>(m, sources, "cloud_config_sources.list"@, u64::MAX as nat);
        a_drawn_key_is_free::<H>(m, sources, "cloud_config_sources.list"@, u64::MAX as nat);
        if let Ok(drawn) = drawn {
            let more = put(sources, drawn, usually_named(items[0]));
            index_of_is_first(sources, drawn);
            assert(more =~= sources.push((drawn, usually_named(items[0]))));
            no_unnamed_source_is_lost::<H>(m1, rest, more);
            if let Ok(mapping) = sources_by_name::<H>(m, items, sources).1 {
                assert(mapping.take(sources.len() as int) =~= mapping.take(more.len() as int).take(
                    sources.len() as int,
                ));
                assert(more.take(sources.len() as int) =~= sources);
                assert(mapping[sources.len() as int] == mapping.take(more.len() as int)[sources.len() as int]);
                assert forall|i: int| 0 <= i < items.len() implies (#[trigger] mapping[sources.len() + i]).1
                    == usually_named(items[i]) by {
                    if i > 0 {
                        assert(mapping[more.len() + (i - 1)].1 == usually_named(rest[i - 1]));
                    }
                }
            }
        }
    }
}

/// A key is among those of a table.
pub open spec fn names_key(table: Seq<(Seq<char>, Option<Seq<char>>)>, key: Seq<char>) -> bool {
    exists|i: int| 0 <= i < table.len() && (#[trigger] table[i]).0 == key
}

/// A mapping holds something under a key.
pub open spec fn is_set(cfg: Seq<(Seq<char>, Val)>, key: Seq<char>) -> bool {
    get(cfg, key) matches Some(v) && !(v is Null)
}

proof fn table_tail(table: Seq<(Seq<char>, Option<Seq<char>>)>, key: Seq<char>)
    requires
        table.len() > 0,
    ensures
        names_key(table, key) == (table[0].0 == key || names_key(table.skip(1), key)),
{
    if names_key(table, key) && table[0].0 != key {
        let i = choose|i: int| 0 <= i < table.len() && (#[trigger] table[i]).0 == key;
        assert(table.skip(1)[i - 1].0 == key);
    }
    if names_key(table.skip(1), key) {
        let i = choose|i: int| 0 <= i < table.len() - 1 && (#[trigger] table.skip(1)[i]).0 == key;
        assert(table[i + 1].0 == key);
    }
}

proof fn swept_keys(cfg: Seq<(Seq<char>, Val)>, table: Seq<(Seq<char>, Option<Seq<char>>)>, key: Seq<char>)
    requires
        keys_distinct(cfg),
    ensures
        keys_distinct(swept(cfg, table).0),
        !names_key(table, key) ==> get(swept(cfg, table).0, key) == get(cfg, key),
        get(cfg, key) is None ==> get(swept(cfg, table).0, key) is None,
        names_key(table, key) && get(swept(cfg, table).0, key) is Some ==> {
            &&& !is_blank(get(swept(cfg, table).0, key)->0)
            &&& names_key(swept(cfg, table).1, key)
        },
    decreases table.len(),
{
    if table.len() > 0 {
        table_tail(table, key);
        let k = table[0].0;
        match get(cfg, k) {
            None => {
                swept_keys(cfg, table.skip(1), key);
            },
            Some(v) => if is_blank(v) {
                remove_keeps_others(cfg, k, key);
                get_after_remove(cfg, k);
                swept_keys(swap_removed(cfg, k), table.skip(1), key);
            } else {
                swept_keys(cfg, table.skip(1), key);
                let left = swept(cfg, table.skip(1)).1;
                let all = seq![table[0]] + left;
                if k == key {
                    assert(all[0].0 == key);
                    swept_value(cfg, table.skip(1), key);
                } else if names_key(left, key) {
                    let i = choose|i: int| 0 <= i < left.len() && (#[trigger] left[i]).0 == key;
                    assert(all[i + 1].0 == key);
                }
            },
        }
    }
}

/// What is not blank is not swept away.
proof fn swept_value(cfg: Seq<(Seq<char>, Val)>, table: Seq<(Seq<char>, Option<Seq<char>>)>, key: Seq<char>)
    requires
        keys_distinct(cfg),
        get(cfg, key) matches Some(v) && !is_blank(v),
    ensures
        get(swept(cfg, table).0, key) == get(cfg, key),
    decreases table.len(),
{
    if table.len() > 0 {
        let k = table[0].0;
        match get(cfg, k) {
            None => {
                swept_value(cfg, table.skip(1), key);
            },
            Some(v) => if is_blank(v) {
                remove_keeps_others(cfg, k, key);
                swept_value(swap_removed(cfg, k), table.skip(1), key);
            } else {
                swept_value(cfg, table.skip(1), key);
            },
        }
    }
}

proof fn agreed_keys(
    cfg: Seq<(Seq<char>, Val)>,
    apt: Seq<(Seq<char>, Val)>,
    table: Seq<(Seq<char>, Option<Seq<char>>)>,
    key: Seq<char>,
)
    requires
        keys_distinct(cfg),
        agreed(cfg, apt, table).1 is Ok,
    ensures
        names_key(table, key) ==> get(agreed(cfg, apt, table).0, key) is None,
        !names_key(table, key) ==> get(agreed(cfg, apt, table).0, key) == get(cfg, key),
        get(cfg, key) is None ==> get(agreed(cfg, apt, table).0, key) is None,
    decreases table.len(),
{
    if table.len() > 0 {
        table_tail(table, key);
        let k = table[0].0;
        remove_keeps_others(cfg, k, key);
        get_after_remove(cfg, k);
        agreed_keys(swap_removed(cfg, k), apt, table.skip(1), key);
    }
}

/// A table moves a key.
spec fn moves_key(table: Seq<(Seq<char>, Option<Seq<char>>)>, key: Seq<char>) -> bool {
    exists|i: int| 0 <= i < table.len() && (#[trigger] table[i]).0 == key && table[i].1 is Some
}

proof fn moved_keys(
    from: Seq<(Seq<char>, Val)>,
    to: Seq<(Seq<char>, Val)>,
    table: Seq<(Seq<char>, Option<Seq<char>>)>,
    any: bool,
    key: Seq<char>,
)
    requires
        keys_distinct(from),
    ensures
        keys_distinct(keys_moved(from, to, table, any).0),
        moves_key(table, key) ==> !is_set(keys_moved(from, to, table, any).0, key),
        !moves_key(table, key) ==> get(keys_moved(from, to, table, any).0, key) == get(from, key),
        get(from, key) is None ==> get(keys_moved(from, to, table, any).0, key) is None,
        !is_set(from, key) ==> !is_set(keys_moved(from, to, table, any).0, key),
    decreases table.len(),
{
    if table.len() > 0 {
        let rest = table.skip(1);
        assert(moves_key(table, key) == ((table[0].0 == key && table[0].1 is Some) || moves_key(rest, key))) by {
            if moves_key(table, key) && !(table[0].0 == key && table[0].1 is Some) {
                let i = choose|i: int| 0 <= i < table.len() && (#[trigger] table[i]).0 == key && table[i].1 is Some;
                assert(rest[i - 1].0 == key && rest[i - 1].1 is Some);
            }
            if moves_key(rest, key) {
                let i = choose|i: int| 0 <= i < rest.len() && (#[trigger] rest[i]).0 == key && rest[i].1 is Some;
                assert(table[i + 1].0 == key && table[i + 1].1 is Some);
            }
        }
        match table[0].1 {
            None => {
                moved_keys(from, to, rest, any, key);
            },
            Some(new_key) => {
                let k = table[0].0;
                remove_keeps_others(from, k, key);
                get_after_remove(from, k);
                let (f, t, m) = key_moved(from, to, k, new_key);
                moved_keys(f, t, rest, any || m, key);
            },
        }
    }
}

proof fn nothing_left(cfg: Seq<(Seq<char>, Val)>, table: Seq<(Seq<char>, Option<Seq<char>>)>)
    requires
        forall|i: int| 0 <= i < table.len() ==> !is_set(cfg, (#[trigger] table[i]).0),
    ensures
        first_left(cfg, table) is None,
    decreases table.len(),
{
    if table.len() > 0 {
        assert(!is_set(cfg, table[0].0));
        assert forall|i: int| 0 <= i < table.skip(1).len() implies !is_set(cfg, (#[trigger] table.skip(1)[i]).0) by {
            assert(table.skip(1)[i] == table[i + 1]);
        }
        nothing_left(cfg, table.skip(1));
    }
}

proof fn old_key_is_moved(key: Seq<char>)
    requires
        names_key(old_keys(), key),
    ensures
        moves_key(old_keys(), key) || moves_key(mirror_keys(), key),
{
    let t = old_keys();
    let u = mirror_keys();
    let i = choose|i: int| 0 <= i < t.len() && (#[trigger] t[i]).0 == key;
    assert(t[1].1 is None && t[2].1 is None && t[3].1 is None);
    assert(t[1].0 == u[0].0 && t[2].0 == u[1].0 && t[3].0 == u[2].0);
    assert(u[0].1 is Some && u[1].1 is Some && u[2].1 is Some);
    if i == 1 || i == 2 || i == 3 {
        assert(u[i - 1].0 == key);
    } else {
        assert(t[i].1 is Some);
    }
}

/// Where there is no mapping under `apt` yet, moving the flat keys there always
/// succeeds: none of them is left.
pub proof fn gathering_succeeds(cfg: Seq<(Seq<char>, Val)>)
    requires
        keys_distinct(cfg),
        !(get(cfg, "apt"@) matches Some(Val::Object(_))),
    ensures
        gathered(cfg).1 is Ok,
{
    let (clean, left) = swept(cfg, old_keys());
    swept_keys(cfg, old_keys(), "apt"@);
    apt_is_new();
    let (f, t, any) = keys_moved(clean, Seq::empty(), old_keys(), false);
    let (rest, apt) = mirror_moved(f, t);
    assert forall|i: int| 0 <= i < old_keys().len() implies !is_set(rest, (#[trigger] old_keys()[i]).0) by {
        let key = old_keys()[i].0;
        moved_keys(clean, Seq::empty(), old_keys(), false, key);
        moved_keys(f, bare_mirror(), mirror_keys(), false, key);
        old_key_is_moved(key);
    }
    nothing_left(rest, old_keys());
}

/// The newer key is none of the older ones.
proof fn apt_is_new()
    ensures
        !names_key(old_keys(), "apt"@),
{
    reveal_strlit("apt");
    reveal_strlit("apt_sources");
    reveal_strlit("apt_mirror");
    reveal_strlit("apt_mirror_search");
    reveal_strlit("apt_mirror_search_dns");
    reveal_strlit("apt_proxy");
    reveal_strlit("apt_http_proxy");
    reveal_strlit("apt_ftp_proxy");
    reveal_strlit("apt_https_proxy");
    reveal_strlit("apt_preserve_sources_list");
    reveal_strlit("apt_custom_sources_list");
    reveal_strlit("add_apt_repo_match");
    if names_key(old_keys(), "apt"@) {
        let t = old_keys();
        let i = choose|i: int| 0 <= i < t.len() && (#[trigger] t[i]).0 == "apt"@;
        assert(t[i].0.len() > 3);
    }
}

/// A configuration that was brought into the form that is used holds none of the
/// older keys any more.
pub proof fn no_older_key_is_left(cfg: Seq<(Seq<char>, Val)>, key: Seq<char>)
    requires
        keys_distinct(cfg),
        gathered(cfg).1 is Ok,
        names_key(old_keys(), key),
    ensures
        get(gathered(cfg).0, key) is None,
{
    let (clean, left) = swept(cfg, old_keys());
    swept_keys(cfg, old_keys(), key);
    swept_keys(cfg, old_keys(), "apt"@);
    apt_is_new();
    if left.len() > 0 {
        match get(clean, "apt"@) {
            Some(Val::Object(apt)) => {
                agreed_keys(clean, apt, left, key);
            },
            _ => {
                let (f, t, any) = keys_moved(clean, Seq::empty(), old_keys(), false);
                let (rest, apt) = mirror_moved(f, t);
                moved_whole(clean, Seq::empty(), old_keys(), false, key);
                moved_keys(clean, Seq::empty(), old_keys(), false, key);
                moved_whole(f, bare_mirror(), mirror_keys(), false, key);
                moved_keys(f, bare_mirror(), mirror_keys(), false, key);
                old_key_is_moved(key);
                get_after_put(rest, "apt"@, Val::Object(apt), key);
            },
        }
    }
}

/// What is not null is moved whole.
proof fn moved_whole(
    from: Seq<(Seq<char>, Val)>,
    to: Seq<(Seq<char>, Val)>,
    table: Seq<(Seq<char>, Option<Seq<char>>)>,
    any: bool,
    key: Seq<char>,
)
    requires
        keys_distinct(from),
        get(from, key) != Some(Val::Null),
    ensures
        get(keys_moved(from, to, table, any).0, key) != Some(Val::Null),
    decreases table.len(),
{
    if table.len() > 0 {
        match table[0].1 {
            None => {
                moved_whole(from, to, table.skip(1), any, key);
            },
            Some(new_key) => {
                let k = table[0].0;
                remove_keeps_others(from, k, key);
                get_after_remove(from, k);
                let (f, t, m) = key_moved(from, to, k, new_key);
                moved_whole(f, t, table.skip(1), any || m, key);
            },
        }
    }
}

/// A configuration in the form that is used already is left as it is.
pub proof fn newer_form_is_kept(cfg: Seq<(Seq<char>, Val)>)
    requires
        forall|i: int| 0 <= i < old_keys().len() ==> get(cfg, (#[trigger] old_keys()[i]).0) is None,
    ensures
        gathered(cfg) == (cfg, Ok::<(), Seq<char>>(())),
{
    nothing_swept(cfg, old_keys());
}

proof fn nothing_swept(cfg: Seq<(Seq<char>, Val)>, table: Seq<(Seq<char>, Option<Seq<char>>)>)
    requires
        forall|i: int| 0 <= i < table.len() ==> get(cfg, (#[trigger] table[i]).0) is None,
    ensures
        swept(cfg, table).0 == cfg,
        swept(cfg, table).1.len() == 0,
    decreases table.len(),
{
    if table.len() > 0 {
        assert forall|i: int| 0 <= i < table.skip(1).len() implies get(cfg, (#[trigger] table.skip(1)[i]).0) is None by {
            assert(table.skip(1)[i] == table[i + 1]);
        }
        nothing_swept(cfg, table.skip(1));
    }
}

proof fn other_keys_stay(
    from: Seq<(Seq<char>, Val)>,
    to: Seq<(Seq<char>, Val)>,
    table: Seq<(Seq<char>, Option<Seq<char>>)>,
    any: bool,
    key: Seq<char>,
)
    requires
        forall|j: int| 0 <= j < table.len() ==> (#[trigger] table[j]).1 != Some(key),
    ensures
        get(keys_moved(from, to, table, any).1, key) == get(to, key),
    decreases table.len(),
{
    if table.len() > 0 {
        let rest = table.skip(1);
        assert(table[0].1 != Some(key));
        assert forall|j: int| 0 <= j < rest.len() implies (#[trigger] rest[j]).1 != Some(key) by {
            assert(rest[j] == table[j + 1]);
        }
        match table[0].1 {
            None => {
                other_keys_stay(from, to, rest, any, key);
            },
            Some(new_key) => {
                let (f, t, moved) = key_moved(from, to, table[0].0, new_key);
                other_keys_stay(f, t, rest, any || moved, key);
                if moved {
                    get_after_put(to, new_key, get(from, table[0].0)->0, key);
                }
            },
        }
    }
}

proof fn a_value_is_moved(
    from: Seq<(Seq<char>, Val)>,
    to: Seq<(Seq<char>, Val)>,
    table: Seq<(Seq<char>, Option<Seq<char>>)>,
    any: bool,
    i: int,
)
    requires
        keys_distinct(from),
        0 <= i < table.len(),
        table[i].1 is Some,
        get(from, table[i].0) is Some,
        get(from, table[i].0) != Some(Val::Null),
        forall|j: int| 0 <= j < i ==> (#[trigger] table[j]).0 != table[i].0,
        forall|j: int| i < j < table.len() ==> (#[trigger] table[j]).1 != table[i].1,
    ensures
        get(keys_moved(from, to, table, any).1, table[i].1->0) == get(from, table[i].0),
        keys_moved(from, to, table, any).2,
    decreases table.len(),
{
    let rest = table.skip(1);
    let key = table[i].1->0;
    if i == 0 {
        let (f, t, moved) = key_moved(from, to, table[0].0, key);
        get_after_put(to, key, get(from, table[0].0)->0, key);
        assert forall|j: int| 0 <= j < rest.len() implies (#[trigger] rest[j]).1 != Some(key) by {
            assert(rest[j] == table[j + 1]);
        }
        other_keys_stay(f, t, rest, any || moved, key);
        moved_stays_known(f, t, rest);
    } else {
        assert(rest[i - 1] == table[i]);
        assert(table[0].0 != table[i].0);
        assert forall|j: int| 0 <= j < i - 1 implies (#[trigger] rest[j]).0 != rest[i - 1].0 by {
            assert(rest[j] == table[j + 1]);
        }
        assert forall|j: int| i - 1 < j < rest.len() implies (#[trigger] rest[j]).1 != rest[i - 1].1 by {
            assert(rest[j] == table[j + 1]);
        }
        match table[0].1 {
            None => {
                a_value_is_moved(from, to, rest, any, i - 1);
            },
            Some(new_key) => {
                let (f, t, moved) = key_moved(from, to, table[0].0, new_key);
                remove_keeps_others(from, table[0].0, table[i].0);
                a_value_is_moved(f, t, rest, any || moved, i - 1);
            },
        }
    }
}

proof fn moved_stays_known(
    from: Seq<(Seq<char>, Val)>,
    to: Seq<(Seq<char>, Val)>,
    table: Seq<(Seq<char>, Option<Seq<char>>)>,
)
    ensures
        keys_moved(from, to, table, true).2,
    decreases table.len(),
{
    if table.len() > 0 {
        match table[0].1 {
            None => {
                moved_stays_known(from, to, table.skip(1));
            },
            Some(new_key) => {
                let (f, t, moved) = key_moved(from, to, table[0].0, new_key);
                moved_stays_known(f, t, table.skip(1));
            },
        }
    }
}

/// Where there is nothing under `apt`, the value of a flat key is found there under the
/// key that took its place. The two keys for ftp and https stand crosswise.
pub proof fn a_flat_key_is_found_under_apt(cfg: Seq<(Seq<char>, Val)>, key: Seq<char>, new_key: Seq<char>, v: Val)
    requires
        keys_distinct(cfg),
        get(cfg, "apt"@) is None,
        get(cfg, key) == Some(v),
        v !is Null,
        v != Val::Text(Seq::empty()),
        ({
            ||| key == "apt_sources"@ && new_key == "sources"@
            ||| key == "apt_proxy"@ && new_key == "proxy"@
            ||| key == "apt_http_proxy"@ && new_key == "http_proxy"@
            ||| key == "apt_ftp_proxy"@ && new_key == "https_proxy"@
            ||| key == "apt_https_proxy"@ && new_key == "ftp_proxy"@
            ||| key == "apt_preserve_sources_list"@ && new_key == "preserve_sources_list"@
            ||| key == "apt_custom_sources_list"@ && new_key == "sources_list"@
            ||| key == "add_apt_repo_match"@ && new_key == "add_apt_repo_match"@
        }),
    ensures
        gathered(cfg).1 is Ok,
        get(gathered(cfg).0, "apt"@) matches Some(Val::Object(apt)) && get(apt, new_key) == Some(v),
{
    old_lengths();
    let t = old_keys();
    let i: int = choose|i: int| 0 <= i < t.len() && (#[trigger] t[i]).0 == key && t[i].1 == Some(new_key);
    assert(t[0].0 == "apt_sources"@ && t[4].0 == "apt_proxy"@ && t[5].0 == "apt_http_proxy"@ && t[6].0 == "apt_ftp_proxy"@
        && t[7].0 == "apt_https_proxy"@ && t[8].0 == "apt_preserve_sources_list"@ && t[9].0
        == "apt_custom_sources_list"@ && t[10].0 == "add_apt_repo_match"@);
    assert(0 <= i < t.len() && t[i].0 == key && t[i].1 == Some(new_key));
    let (clean, left) = swept(cfg, t);
    swept_value(cfg, t, key);
    swept_keys(cfg, t, key);
    swept_keys(cfg, t, "apt"@);
    assert(names_key(t, key));
    assert(left.len() > 0) by {
        assert(names_key(left, key));
    }
    gathering_succeeds(cfg);
    let (f, to, any) = keys_moved(clean, Seq::empty(), t, false);
    assert forall|j: int| 0 <= j < i implies (#[trigger] t[j]).0 != t[i].0 by {}
    assert forall|j: int| i < j < t.len() implies (#[trigger] t[j]).1 != t[i].1 by {}
    a_value_is_moved(clean, Seq::empty(), t, false, i);
    let (rest, apt) = mirror_moved(f, to);
    let mirror = keys_moved(f, bare_mirror(), mirror_keys(), false).1;
    get_after_put(to, "primary"@, Val::Array(seq![Val::Object(mirror)]), new_key);
    get_after_put(rest, "apt"@, Val::Object(apt), "apt"@);
}

/// The flat keys of a mirror become the one entry of the primary mirror, which is for every
/// architecture.
pub proof fn a_flat_mirror_becomes_the_primary_one(cfg: Seq<(Seq<char>, Val)>, key: Seq<char>, new_key: Seq<char>, v: Val)
    requires
        keys_distinct(cfg),
        get(cfg, "apt"@) is None,
        get(cfg, key) == Some(v),
        v !is Null,
        v != Val::Text(Seq::empty()),
        ({
            ||| key == "apt_mirror"@ && new_key == "uri"@
            ||| key == "apt_mirror_search"@ && new_key == "search"@
            ||| key == "apt_mirror_search_dns"@ && new_key == "search_dns"@
        }),
    ensures
        gathered(cfg).1 is Ok,
        get(gathered(cfg).0, "apt"@) is Some,
        get(gathered(cfg).0, "apt"@)->0 is Object,
        get(get(gathered(cfg).0, "apt"@)->0->Object_0, "primary"@) matches Some(Val::Array(list)) && list.len() == 1 && (
        list[0] matches Val::Object(mirror) && get(mirror, new_key) == Some(v) && get(mirror, "arches"@) == Some(
            Val::Array(seq![Val::Text("default"@)]),
        )),
{
    old_lengths();
    reveal_strlit("uri");
    reveal_strlit("search");
    reveal_strlit("search_dns");
    reveal_strlit("arches");
    assert("uri"@.len() == 3 && "search"@.len() == 6 && "search_dns"@.len() == 10 && "arches"@.len() == 6);
    assert("search"@[0] == 's');
    assert("arches"@[0] == 'a');
    let t = old_keys();
    let k = mirror_keys();
    let i: int = if key == "apt_mirror"@ {
        0
    } else if key == "apt_mirror_search"@ {
        1
    } else {
        2
    };
    assert(k[i].0 == key && k[i].1 == Some(new_key));
    assert(t[i + 1].0 == key);
    let (clean, left) = swept(cfg, t);
    swept_value(cfg, t, key);
    swept_keys(cfg, t, key);
    swept_keys(cfg, t, "apt"@);
    assert(names_key(t, key));
    assert(left.len() > 0) by {
        assert(names_key(left, key));
    }
    gathering_succeeds(cfg);
    let (f, to, any) = keys_moved(clean, Seq::empty(), t, false);
    moved_keys(clean, Seq::empty(), t, false, key);
    assert(!moves_key(t, key)) by {
        if moves_key(t, key) {
            let j = choose|j: int| 0 <= j < t.len() && (#[trigger] t[j]).0 == key && t[j].1 is Some;
            assert(j == i + 1);
        }
    }
    assert forall|j: int| 0 <= j < i implies (#[trigger] k[j]).0 != k[i].0 by {}
    assert forall|j: int| i < j < k.len() implies (#[trigger] k[j]).1 != k[i].1 by {}
    a_value_is_moved(f, bare_mirror(), k, false, i);
    assert forall|j: int| 0 <= j < k.len() implies (#[trigger] k[j]).1 != Some("arches"@) by {}
    other_keys_stay(f, bare_mirror(), k, false, "arches"@);
    index_of_is_first(bare_mirror(), "arches"@);
    assert(bare_mirror()[0].0 == "arches"@);
    let (rest, apt) = mirror_moved(f, to);
    let mirror = keys_moved(f, bare_mirror(), k, false).1;
    get_after_put(to, "primary"@, Val::Array(seq![Val::Object(mirror)]), "primary"@);
    get_after_put(rest, "apt"@, Val::Object(apt), "apt"@);
}

proof fn old_lengths()
    ensures
        "apt_sources"@.len() == 11,
        "apt_mirror"@.len() == 10,
        "apt_mirror_search"@.len() == 17,
        "apt_mirror_search_dns"@.len() == 21,
        "apt_proxy"@.len() == 9,
        "apt_http_proxy"@.len() == 14,
        "apt_ftp_proxy"@.len() == 13,
        "apt_https_proxy"@.len() == 15,
        "apt_preserve_sources_list"@.len() == 25,
        "apt_custom_sources_list"@.len() == 23,
        "add_apt_repo_match"@.len() == 18,
        "sources"@.len() == 7,
        "sources"@ != "primary"@,
        "primary"@.len() == 7,
        "proxy"@.len() == 5,
        "http_proxy"@.len() == 10,
        "https_proxy"@.len() == 11,
        "ftp_proxy"@.len() == 9,
        "preserve_sources_list"@.len() == 21,
        "sources_list"@.len() == 12,
        "apt"@.len() == 3,
{
    reveal_strlit("apt");
    reveal_strlit("apt_sources");
    reveal_strlit("apt_mirror");
    reveal_strlit("apt_mirror_search");
    reveal_strlit("apt_mirror_search_dns");
    reveal_strlit("apt_proxy");
    reveal_strlit("apt_http_proxy");
    reveal_strlit("apt_ftp_proxy");
    reveal_strlit("apt_https_proxy");
    reveal_strlit("apt_preserve_sources_list");
    reveal_strlit("apt_custom_sources_list");
    reveal_strlit("add_apt_repo_match");
    reveal_strlit("sources");
    reveal_strlit("primary");
    reveal_strlit("proxy");
    reveal_strlit("http_proxy");
    reveal_strlit("https_proxy");
    reveal_strlit("ftp_proxy");
    reveal_strlit("preserve_sources_list");
    reveal_strlit("sources_list");
    assert("sources"@[0] == 's');
    assert("primary"@[0] == 'p');
}

}
