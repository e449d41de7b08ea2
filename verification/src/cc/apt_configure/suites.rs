//! Taking suites out of a file of sources, in either of its two forms.

use vstd::prelude::*;

use crate::case::{alphanumeric, is_alphanumeric};
use crate::cc::apt_configure::host::{ask_render, log_debug, log_warn, logged, warned, Host, Site};
use crate::cc::text_result;
use crate::show::{list_debug_of, list_debugged};
use crate::space::{
    all_in, all_within, feed_lines, feed_lines_of, pieces, pieces_of, trim_start, trim_start_of, words, words_of, Class,
};
use crate::text::{
    behind, cat2, cat3, cat4, chars_of, ends, ends_with, has_text, join, join_with, replace, replaced, same, split,
    split_on, starts, starts_with, strip_prefix, texts,
};
use crate::value::{Node, Object, Val};

verus! {

pub const DISABLE_SUITES_REDACT_PREFIX: &'static str = "# cloud-init disable_suites redacted: ";

/// A suite's name with the five short names written out.
pub open spec fn known_suite(suite: Seq<char>) -> Seq<char> {
    if suite == "updates"@ {
        "$RELEASE-updates"@
    } else if suite == "backports"@ {
        "$RELEASE-backports"@
    } else if suite == "security"@ {
        "$RELEASE-security"@
    } else if suite == "proposed"@ {
        "$RELEASE-proposed"@
    } else if suite == "release"@ {
        "$RELEASE"@
    } else {
        suite
    }
}

pub fn map_known_suites(suite: &str) -> (r: &str)
    ensures
        r@ == known_suite(suite@),
{
    if same(suite, "updates") {
        "$RELEASE-updates"
    } else if same(suite, "backports") {
        "$RELEASE-backports"
    } else if same(suite, "security") {
        "$RELEASE-security"
    } else if same(suite, "proposed") {
        "$RELEASE-proposed"
    } else if same(suite, "release") {
        "$RELEASE"
    } else {
        suite
    }
}

// ---------------------------------------------------------------------------
// Which form it is

/// A line of the form with one line for each source.
pub open spec fn is_one_line(line: Seq<char>) -> bool {
    starts(line, "deb "@) || starts(line, "deb-src "@)
}

/// A line of the form with a stanza for each source.
pub open spec fn is_stanza_line(line: Seq<char>) -> bool {
    ||| starts(line, "Types: "@)
    ||| starts(line, "Suites: "@)
    ||| starts(line, "Components: "@)
    ||| starts(line, "URIs: "@)
}

/// Whether a file of sources is made of stanzas. One that shows neither form is
/// taken for one of lines.
pub open spec fn has_stanzas(content: Seq<char>) -> bool {
    let lines = feed_lines(content);
    &&& forall|i: int| 0 <= i < lines.len() ==> !is_one_line(#[trigger] lines[i])
    &&& exists|i: int| 0 <= i < lines.len() && is_stanza_line(#[trigger] lines[i])
}

/// Whether a file of sources shows neither form.
pub open spec fn has_neither_form(content: Seq<char>) -> bool {
    let lines = feed_lines(content);
    forall|i: int| 0 <= i < lines.len() ==> !is_one_line(#[trigger] lines[i]) && !is_stanza_line(lines[i])
}

/// That a file of sources shows neither form is warned of.
pub open spec fn form_told<H: Host>(m: Site<H>, content: Seq<char>) -> Site<H> {
    if has_neither_form(content) {
        warned::<H>(
            m,
            "apt.sources_list value does not match either deb822 source keys or deb/deb-src list keys. Assuming APT deb/deb-src list format."@,
        )
    } else {
        m
    }
}

pub fn is_deb822_sources_format<H: Host>(content: &str, host: &mut H) -> (r: bool)
    ensures
        final(host).machine() == form_told::<H>(old(host).machine(), content@),
        r == has_stanzas(content@),
{
    let lines = feed_lines_of(content);
    let ghost all = texts(lines@);
    let mut stanza = false;
    let mut i: usize = 0;
    while i < lines.len()
        invariant
            i <= lines@.len(),
            all == texts(lines@),
            all == feed_lines(content@),
            forall|j: int| 0 <= j < i ==> !is_one_line(#[trigger] all[j]),
            stanza == exists|j: int| 0 <= j < i && is_stanza_line(#[trigger] all[j]),
            host.machine() == old(host).machine(),
        decreases lines.len() - i,
    {
        let line = lines[i].as_str();
        assert(all[i as int] == line@);
        if starts_with(line, "deb ") || starts_with(line, "deb-src ") {
            assert(is_one_line(all[i as int]));
            return false;
        }
        if starts_with(line, "Types: ") || starts_with(line, "Suites: ") || starts_with(line, "Components: ")
            || starts_with(line, "URIs: ") {
            assert(is_stanza_line(all[i as int]));
            stanza = true;
        }
        i += 1;
    }
    if !stanza {
        log_warn(
            host,
            "apt.sources_list value does not match either deb822 source keys or deb/deb-src list keys. Assuming APT deb/deb-src list format.",
        );
    }
    stanza
}

// ---------------------------------------------------------------------------
// Stanzas

/// A line that names a suite.
pub open spec fn names_suite(line: Seq<char>) -> bool {
    match behind(line, "Suites:"@) {
        None => false,
        Some(rest) => {
            let names = trim_start(Class::Blank, rest);
            &&& names.len() != rest.len()
            &&& names.len() > 0
            &&& (alphanumeric(names[0]) || names[0] == '_' || names[0] == '-')
        },
    }
}

fn line_names_suite(line: &str) -> (r: bool)
    ensures
        r == names_suite(line@),
{
    let rest = match strip_prefix(line, "Suites:") {
        Some(rest) => rest,
        None => return false,
    };
    let whole = chars_of(rest.as_str());
    let names = chars_of(trim_start_of(Class::Blank, rest.as_str()).as_str());
    whole.len() != names.len() && names.len() > 0 && (is_alphanumeric(names[0]) || names[0] == '_' || names[0] == '-')
}

/// A stanza that names a suite, on a line that is not its first.
pub open spec fn has_suites(entry: Seq<char>) -> bool {
    let lines = split(entry, seq!['\n']);
    exists|i: int| 1 <= i < lines.len() && names_suite(#[trigger] lines[i])
}

fn has_active_suites(lines: &Vec<String>) -> (r: bool)
    ensures
        r == exists|i: int| 1 <= i < lines@.len() && names_suite(#[trigger] texts(lines@)[i]),
{
    let ghost all = texts(lines@);
    let mut i: usize = 1;
    while i < lines.len()
        invariant
            1 <= i,
            i <= lines@.len() || lines@.len() == 0,
            all == texts(lines@),
            forall|j: int| 1 <= j < i && j < lines@.len() ==> !names_suite(#[trigger] all[j]),
        decreases lines.len() - i,
    {
        assert(all[i as int] == lines@[i as int]@);
        if line_names_suite(lines[i].as_str()) {
            return true;
        }
        i += 1;
    }
    false
}

/// Lines without those that begin with `Suites:`.
pub open spec fn other_lines(lines: Seq<Seq<char>>) -> Seq<Seq<char>>
    decreases lines.len(),
{
    if lines.len() == 0 {
        Seq::empty()
    } else {
        let before = other_lines(lines.drop_last());
        if starts(lines.last(), "Suites:"@) {
            before
        } else {
            before.push(lines.last())
        }
    }
}

/// A stanza without its lines of suites, of which the first line is none.
pub open spec fn without_suites(entry: Seq<char>) -> Seq<char> {
    let lines = split(entry, seq!['\n']);
    join(seq![lines[0]] + other_lines(lines.skip(1)), "\n"@)
}

fn strip_suites_lines(lines: &Vec<String>) -> (r: String)
    requires
        lines@.len() > 0,
    ensures
        r@ == join(seq![texts(lines@)[0]] + other_lines(texts(lines@).skip(1)), "\n"@),
{
    let ghost all = texts(lines@);
    let ghost tail = all.skip(1);
    let mut kept: Vec<String> = Vec::new();
    kept.push(lines[0].clone());
    assert(texts(kept@) =~= seq![all[0]] + other_lines(tail.take(0)));
    let mut i: usize = 1;
    while i < lines.len()
        invariant
            1 <= i <= lines@.len(),
            all == texts(lines@),
            tail == all.skip(1),
            texts(kept@) == seq![all[0]] + other_lines(tail.take(i - 1)),
        decreases lines.len() - i,
    {
        assert(all[i as int] == lines@[i as int]@);
        assert(tail.take(i as int).drop_last() =~= tail.take(i - 1));
        assert(tail.take(i as int).last() == all[i as int]);
        if !starts_with(lines[i].as_str(), "Suites:") {
            let ghost before = texts(kept@);
            kept.push(lines[i].clone());
            assert(texts(kept@) =~= before.push(all[i as int]));
            assert(texts(kept@) =~= seq![all[0]] + other_lines(tail.take(i as int)));
        }
        i += 1;
    }
    assert(tail.take(i - 1) =~= tail);
    join_with(&kept, "\n")
}

/// Lines with a text before each that is not blank.
pub open spec fn indented(lines: Seq<Seq<char>>, prefix: Seq<char>) -> Seq<char>
    decreases lines.len(),
{
    if lines.len() == 0 {
        Seq::empty()
    } else {
        let before = indented(lines.drop_last(), prefix);
        if all_within(Class::Space, lines.last()) {
            before + lines.last()
        } else {
            before + (prefix + lines.last())
        }
    }
}

fn indent_nonempty(text: &str, prefix: &str) -> (r: String)
    ensures
        r@ == indented(pieces(text@), prefix@),
{
    let lines = pieces_of(text);
    let ghost all = texts(lines@);
    let mut out = String::new();
    let mut i: usize = 0;
    assert(all.take(0) =~= Seq::empty());
    while i < lines.len()
        invariant
            i <= lines@.len(),
            all == texts(lines@),
            out@ == indented(all.take(i as int), prefix@),
        decreases lines.len() - i,
    {
        let line = lines[i].as_str();
        assert(all[i as int] == line@);
        assert(all.take(i + 1).drop_last() =~= all.take(i as int));
        if !all_in(Class::Space, line) {
            out = cat3(out.as_str(), prefix, line);
            assert(out@ =~= indented(all.take(i + 1), prefix@));
        } else {
            out = cat2(out.as_str(), line);
        }
        i += 1;
    }
    assert(all.take(i as int) =~= all);
    out
}

/// A stanza as it is written: one that names no suite is commented out, with the
/// suites that were taken from it.
pub open spec fn stanza(entry: Seq<char>) -> Seq<char> {
    if has_suites(entry) {
        entry
    } else {
        "## Entry disabled by cloud-init, due to disable_suites\n"@ + indented(
            pieces(replaced(without_suites(entry), "# cloud-init disable_suites redacted: "@, ""@)),
            "# disabled by cloud-init: "@,
        )
    }
}

pub fn disable_deb822_section_without_suites(entry: &str) -> (r: String)
    ensures
        r@ == stanza(entry@),
{
    let feed = crate::text::char_text('\n');
    let lines = split_on(entry, feed.as_str());
    if has_active_suites(&lines) {
        return entry.to_owned();
    }
    let stripped = strip_suites_lines(&lines);
    proof {
        reveal_strlit("# cloud-init disable_suites redacted: ");
    }
    let bare = replace(stripped.as_str(), "# cloud-init disable_suites redacted: ", "");
    cat2(
        "## Entry disabled by cloud-init, due to disable_suites\n",
        indent_nonempty(bare.as_str(), "# disabled by cloud-init: ").as_str(),
    )
}

/// Names without those of a list.
pub open spec fn names_kept(names: Seq<Seq<char>>, disabled: Seq<Seq<char>>) -> Seq<Seq<char>>
    decreases names.len(),
{
    if names.len() == 0 {
        Seq::empty()
    } else {
        let before = names_kept(names.drop_last(), disabled);
        if disabled.contains(names.last()) {
            before
        } else {
            before.push(names.last())
        }
    }
}

fn kept_of(names: &Vec<String>, disabled: &Vec<String>) -> (r: Vec<String>)
    ensures
        texts(r@) == names_kept(texts(names@), texts(disabled@)),
{
    let ghost all = texts(names@);
    let mut kept: Vec<String> = Vec::new();
    let mut i: usize = 0;
    assert(texts(kept@) =~= names_kept(all.take(0), texts(disabled@)));
    while i < names.len()
        invariant
            i <= names@.len(),
            all == texts(names@),
            texts(kept@) == names_kept(all.take(i as int), texts(disabled@)),
        decreases names.len() - i,
    {
        assert(all[i as int] == names@[i as int]@);
        assert(all.take(i + 1).drop_last() =~= all.take(i as int));
        if !has_text(disabled, names[i].as_str()) {
            let ghost before = texts(kept@);
            kept.push(names[i].clone());
            assert(texts(kept@) =~= before.push(all[i as int]));
        }
        i += 1;
    }
    assert(all.take(i as int) =~= all);
    kept
}

proof fn kept_at_most(names: Seq<Seq<char>>, disabled: Seq<Seq<char>>)
    ensures
        names_kept(names, disabled).len() <= names.len(),
        names_kept(names, disabled).len() == names.len() ==> names_kept(names, disabled) == names,
    decreases names.len(),
{
    if names.len() > 0 {
        kept_at_most(names.drop_last(), disabled);
        if names_kept(names, disabled).len() == names.len() {
            assert(names_kept(names, disabled) =~= names);
        }
    }
}

/// A line of suites as it is written: where a suite is taken out, the line as it
/// was stands above it as a comment.
pub open spec fn suites_line(line: Seq<char>, disabled: Seq<Seq<char>>) -> Seq<char> {
    let names = words(Class::Space, line.skip("Suites:"@.len() as int));
    let kept = names_kept(names, disabled);
    if kept != names {
        "# cloud-init disable_suites redacted: "@ + line + "\nSuites: "@ + join(kept, " "@) + "\n"@
    } else {
        line + "\n"@
    }
}

fn suites_line_of(line: &str, rest: &str, disabled: &Vec<String>) -> (r: String)
    requires
        behind(line@, "Suites:"@) == Some(rest@),
    ensures
        r@ == suites_line(line@, texts(disabled@)),
{
    let names = words_of(Class::Space, rest);
    let kept = kept_of(&names, disabled);
    proof {
        kept_at_most(texts(names@), texts(disabled@));
    }
    assert(texts(kept@).len() == kept@.len() && texts(names@).len() == names@.len());
    if kept.len() != names.len() {
        crate::text::cat5(
            "# cloud-init disable_suites redacted: ",
            line,
            "\nSuites: ",
            join_with(&kept, " ").as_str(),
            "\n",
        )
    } else {
        cat2(line, "\n")
    }
}

/// What comes of the rest of a file of stanzas: the pieces that are written, given
/// those so far and the stanza that is being read.
pub open spec fn stanzas(
    lines: Seq<Seq<char>>,
    disabled: Seq<Seq<char>>,
    out: Seq<Seq<char>>,
    entry: Seq<char>,
) -> Seq<Seq<char>>
    decreases lines.len(),
{
    if lines.len() == 0 {
        if entry.len() > 0 {
            out.push(stanza(entry))
        } else {
            out
        }
    } else {
        let line = lines[0];
        let rest = lines.skip(1);
        if starts(line, "#"@) {
            if entry.len() == 0 {
                stanzas(rest, disabled, out.push(line), entry)
            } else {
                stanzas(rest, disabled, out, entry + line + "\n"@)
            }
        } else if all_within(Class::Space, line) {
            if entry.len() > 0 {
                stanzas(rest, disabled, out.push(stanza(entry)).push(line), Seq::empty())
            } else {
                stanzas(rest, disabled, out.push(line), entry)
            }
        } else if starts(line, "Suites:"@) {
            stanzas(rest, disabled, out, entry + suites_line(line, disabled))
        } else {
            stanzas(rest, disabled, out, entry + line + "\n"@)
        }
    }
}

fn stanzas_of(src: &str, disabled: &Vec<String>) -> (r: String)
    ensures
        r@ == join(stanzas(feed_lines(src@), texts(disabled@), Seq::empty(), Seq::empty()), "\n"@),
{
    let lines = feed_lines_of(src);
    let ghost all = texts(lines@);
    let ghost names = texts(disabled@);
    let ghost whole = stanzas(all, names, Seq::empty(), Seq::empty());
    let mut out: Vec<String> = Vec::new();
    let mut entry = String::new();
    let mut i: usize = 0;
    assert(all.skip(0) =~= all);
    assert(texts(out@) =~= Seq::empty());
    assert(entry@ =~= Seq::empty());
    while i < lines.len()
        invariant
            i <= lines@.len(),
            all == texts(lines@),
            names == texts(disabled@),
            stanzas(all.skip(i as int), names, texts(out@), entry@) == whole,
        decreases lines.len() - i,
    {
        let line = lines[i].as_str();
        assert(all.skip(i as int)[0] == line@);
        assert(all.skip(i as int).skip(1) =~= all.skip(i + 1));
        let ghost before = texts(out@);
        if starts_with(line, "#") {
            if entry.as_str().is_empty() {
                out.push(line.to_owned());
                assert(texts(out@) =~= before.push(line@));
            } else {
                entry = cat3(entry.as_str(), line, "\n");
            }
        } else if all_in(Class::Space, line) {
            if !entry.as_str().is_empty() {
                out.push(disable_deb822_section_without_suites(entry.as_str()));
                out.push(line.to_owned());
                assert(texts(out@) =~= before.push(stanza(entry@)).push(line@));
                entry = String::new();
                assert(entry@ =~= Seq::empty());
            } else {
                out.push(line.to_owned());
                assert(texts(out@) =~= before.push(line@));
            }
        } else {
            match strip_prefix(line, "Suites:") {
                Some(rest) => {
                    entry = cat2(entry.as_str(), suites_line_of(line, rest.as_str(), disabled).as_str());
                },
                None => {
                    entry = cat3(entry.as_str(), line, "\n");
                },
            }
        }
        i += 1;
    }
    if !entry.as_str().is_empty() {
        let ghost before = texts(out@);
        out.push(disable_deb822_section_without_suites(entry.as_str()));
        assert(texts(out@) =~= before.push(stanza(entry@)));
    }
    join_with(&out, "\n")
}

// ---------------------------------------------------------------------------
// Names

/// The parameters with which a suite's name is filled in.
pub open spec fn release_params(release: Seq<char>) -> Seq<(Seq<char>, Val)> {
    seq![("RELEASE"@, Val::Text(release))]
}

fn render_release<H: Host>(host: &mut H, text: &str, release: &str) -> (r: Result<String, String>)
    ensures
        (final(host).machine(), text_result(r)) == ask_render::<H>(
            old(host).machine(),
            text@,
            release_params(release@),
        ),
{
    let mut params = Object::new();
    params.insert("RELEASE", Node::text(release));
    assert(params@ =~= release_params(release@));
    host.render(text, &params)
}

/// The names of suites, written out and filled in.
pub open spec fn suite_names<H: Host>(
    m: Site<H>,
    suites: Seq<Seq<char>>,
    release: Seq<char>,
    out: Seq<Seq<char>>,
) -> (Site<H>, Result<Seq<Seq<char>>, Seq<char>>)
    decreases suites.len(),
{
    if suites.len() == 0 {
        (m, Ok(out))
    } else {
        let (m1, name) = ask_render::<H>(m, known_suite(suites[0]), release_params(release));
        match name {
            Err(e) => (m1, Err(e)),
            Ok(name) => suite_names::<H>(m1, suites.skip(1), release, out.push(name)),
        }
    }
}

/// A file of stanzas without some suites.
pub open spec fn without_in_stanzas<H: Host>(
    m: Site<H>,
    suites: Seq<Seq<char>>,
    src: Seq<char>,
    release: Seq<char>,
) -> (Site<H>, Result<Seq<char>, Seq<char>>) {
    let (m1, names) = suite_names::<H>(m, suites, release, Seq::empty());
    match names {
        Err(e) => (m1, Err(e)),
        Ok(names) => (
            logged::<H>(m1, "Disabling suites "@ + list_debugged(suites) + " as "@ + list_debugged(names)),
            Ok(join(stanzas(feed_lines(src), names, Seq::empty(), Seq::empty()), "\n"@)),
        ),
    }
}

pub fn disable_suites_deb822<H: Host>(disabled: &Vec<String>, src: &str, release: &str, host: &mut H) -> (r: Result<
    String,
    String,
>)
    ensures
        (final(host).machine(), text_result(r)) == without_in_stanzas::<H>(
            old(host).machine(),
            texts(disabled@),
            src@,
            release@,
        ),
{
    let ghost all = texts(disabled@);
    let ghost m0 = old(host).machine();
    let mut names: Vec<String> = Vec::new();
    let mut i: usize = 0;
    assert(all.skip(0) =~= all);
    assert(texts(names@) =~= Seq::empty());
    while i < disabled.len()
        invariant
            i <= disabled@.len(),
            all == texts(disabled@),
            m0 == old(host).machine(),
            suite_names::<H>(host.machine(), all.skip(i as int), release@, texts(names@)) == suite_names::<H>(
                m0,
                all,
                release@,
                Seq::empty(),
            ),
        decreases disabled.len() - i,
    {
        assert(all.skip(i as int)[0] == disabled@[i as int]@);
        assert(all.skip(i as int).skip(1) =~= all.skip(i + 1));
        let ghost before = texts(names@);
        match render_release(host, map_known_suites(disabled[i].as_str()), release) {
            Ok(name) => {
                let ghost n = name@;
                names.push(name);
                assert(texts(names@) =~= before.push(n));
            },
            Err(e) => return Err(e),
        }
        i += 1;
    }
    log_debug(
        host,
        cat4("Disabling suites ", list_debug_of(disabled).as_str(), " as ", list_debug_of(&names).as_str()).as_str(),
    );
    Ok(stanzas_of(src, &names))
}

// ---------------------------------------------------------------------------
// Lines

/// How many words there are up to the one that closes the options, counted from a
/// position.
pub open spec fn option_words(cols: Seq<Seq<char>>, from: int) -> int
    decreases cols.len() - from,
{
    if from < 0 || from >= cols.len() {
        0
    } else if ends(cols[from], "]"@) {
        1
    } else {
        1 + option_words(cols, from + 1)
    }
}

/// Where in a line's words its suite stands: behind the kind, the options and the
/// address.
pub open spec fn suite_column(cols: Seq<Seq<char>>) -> int {
    if starts(cols[1], "["@) {
        2 + option_words(cols, 1)
    } else {
        2
    }
}

/// A line as it is written: one for the suite is commented out.
pub open spec fn source_line(line: Seq<char>, suite: Seq<char>) -> Result<Seq<char>, Seq<char>> {
    let cols = words(Class::Space, line);
    if starts(line, "#"@) || cols.len() <= 1 {
        Ok(line)
    } else if suite_column(cols) >= cols.len() {
        Err("list index out of range"@)
    } else if cols[suite_column(cols)] == suite {
        Ok("# suite disabled by cloud-init: "@ + line)
    } else {
        Ok(line)
    }
}

/// Lines without a suite, behind what was written so far.
pub open spec fn source_lines(lines: Seq<Seq<char>>, suite: Seq<char>, out: Seq<char>) -> Result<Seq<char>, Seq<char>>
    decreases lines.len(),
{
    if lines.len() == 0 {
        Ok(out)
    } else {
        match source_line(lines[0], suite) {
            Err(e) => Err(e),
            Ok(line) => source_lines(lines.skip(1), suite, out + line),
        }
    }
}

fn suite_column_of(cols: &Vec<String>) -> (r: Option<usize>)
    requires
        cols@.len() > 1,
    ensures
        match r {
            Some(c) => c == suite_column(texts(cols@)) && c < cols@.len(),
            None => suite_column(texts(cols@)) >= cols@.len(),
        },
{
    let ghost all = texts(cols@);
    assert(all[1] == cols@[1]@);
    if !starts_with(cols[1].as_str(), "[") {
        return if cols.len() > 2 {
            Some(2)
        } else {
            None
        };
    }
    let mut i: usize = 1;
    while i < cols.len()
        invariant
            1 <= i <= cols@.len(),
            all == texts(cols@),
            suite_column(all) == 2 + option_words(all, 1),
            1 + i + option_words(all, i as int) == 2 + option_words(all, 1),
        decreases cols.len() - i,
    {
        assert(all[i as int] == cols@[i as int]@);
        if ends_with(cols[i].as_str(), "]") {
            return if cols.len() - i > 2 {
                Some(i + 2)
            } else {
                None
            };
        }
        i += 1;
    }
    None
}

fn source_line_of(line: &str, suite: &str) -> (r: Result<String, String>)
    ensures
        text_result(r) == source_line(line@, suite@),
{
    if starts_with(line, "#") {
        return Ok(line.to_owned());
    }
    let cols = words_of(Class::Space, line);
    if cols.len() <= 1 {
        return Ok(line.to_owned());
    }
    let column = match suite_column_of(&cols) {
        Some(column) => column,
        None => return Err("list index out of range".to_owned()),
    };
    assert(texts(cols@)[column as int] == cols@[column as int]@);
    if same(cols[column].as_str(), suite) {
        Ok(cat2("# suite disabled by cloud-init: ", line))
    } else {
        Ok(line.to_owned())
    }
}

fn source_lines_of(src: &str, suite: &str) -> (r: Result<String, String>)
    ensures
        text_result(r) == source_lines(pieces(src@), suite@, Seq::empty()),
{
    let lines = pieces_of(src);
    let ghost all = texts(lines@);
    let mut out = String::new();
    let mut i: usize = 0;
    assert(all.skip(0) =~= all);
    assert(out@ =~= Seq::empty());
    while i < lines.len()
        invariant
            i <= lines@.len(),
            all == texts(lines@),
            all == pieces(src@),
            source_lines(all.skip(i as int), suite@, out@) == source_lines(all, suite@, Seq::empty()),
        decreases lines.len() - i,
    {
        assert(all.skip(i as int)[0] == lines@[i as int]@);
        assert(all.skip(i as int).skip(1) =~= all.skip(i + 1));
        match source_line_of(lines[i].as_str(), suite) {
            Ok(line) => {
                out = cat2(out.as_str(), line.as_str());
            },
            Err(e) => return Err(e),
        }
        i += 1;
    }
    Ok(out)
}

/// A file of lines without some suites, one after the other.
pub open spec fn without_in_lines<H: Host>(
    m: Site<H>,
    suites: Seq<Seq<char>>,
    src: Seq<char>,
    release: Seq<char>,
) -> (Site<H>, Result<Seq<char>, Seq<char>>)
    decreases suites.len(),
{
    if suites.len() == 0 {
        (m, Ok(src))
    } else {
        let (m1, name) = ask_render::<H>(m, known_suite(suites[0]), release_params(release));
        match name {
            Err(e) => (m1, Err(e)),
            Ok(name) => {
                let m2 = logged::<H>(m1, "Disabling suite "@ + known_suite(suites[0]) + " as "@ + name);
                match source_lines(pieces(src), name, Seq::empty()) {
                    Err(e) => (m2, Err(e)),
                    Ok(rest) => without_in_lines::<H>(m2, suites.skip(1), rest, release),
                }
            },
        }
    }
}

/// A file of sources of either form without some suites.
pub open spec fn without_some<H: Host>(
    m: Site<H>,
    suites: Seq<Seq<char>>,
    src: Seq<char>,
    release: Seq<char>,
) -> (Site<H>, Result<Seq<char>, Seq<char>>) {
    if suites.len() == 0 {
        (m, Ok(src))
    } else if has_stanzas(src) {
        without_in_stanzas::<H>(form_told::<H>(m, src), suites, src, release)
    } else {
        without_in_lines::<H>(form_told::<H>(m, src), suites, src, release)
    }
}

pub fn disable_suites<H: Host>(disabled: &Vec<String>, src: &str, release: &str, host: &mut H) -> (r: Result<
    String,
    String,
>)
    ensures
        (final(host).machine(), text_result(r)) == without_some::<H>(
            old(host).machine(),
            texts(disabled@),
            src@,
            release@,
        ),
{
    if disabled.len() == 0 {
        return Ok(src.to_owned());
    }
    if is_deb822_sources_format(src, host) {
        return disable_suites_deb822(disabled, src, release, host);
    }
    let ghost all = texts(disabled@);
    let ghost m0 = host.machine();
    let mut rest = src.to_owned();
    let mut i: usize = 0;
    assert(all.skip(0) =~= all);
    while i < disabled.len()
        invariant
            i <= disabled@.len(),
            all == texts(disabled@),
            without_some::<H>(old(host).machine(), all, src@, release@) == without_in_lines::<H>(
                m0,
                all,
                src@,
                release@,
            ),
            without_in_lines::<H>(host.machine(), all.skip(i as int), rest@, release@) == without_in_lines::<H>(
                m0,
                all,
                src@,
                release@,
            ),
        decreases disabled.len() - i,
    {
        assert(all.skip(i as int)[0] == disabled@[i as int]@);
        assert(all.skip(i as int).skip(1) =~= all.skip(i + 1));
        let suite = map_known_suites(disabled[i].as_str());
        let name = match render_release(host, suite, release) {
            Ok(name) => name,
            Err(e) => return Err(e),
        };
        log_debug(host, cat4("Disabling suite ", suite, " as ", name.as_str()).as_str());
        match source_lines_of(rest.as_str(), name.as_str()) {
            Ok(next) => {
                rest = next;
            },
            Err(e) => return Err(e),
        }
        i += 1;
    }
    Ok(rest)
}

// ---------------------------------------------------------------------------
// Laws

/// Taking a suite out of a line only ever puts a comment before it.
pub proof fn a_line_is_only_commented_out(line: Seq<char>, suite: Seq<char>)
    ensures
        source_line(line, suite) matches Ok(written) ==> written == line || written
            == "# suite disabled by cloud-init: "@ + line,
{
}

/// A line that was commented out is left as it is from then on.
pub proof fn a_comment_stays(line: Seq<char>, suite: Seq<char>, other: Seq<char>)
    requires
        source_line(line, suite) == Ok::<Seq<char>, Seq<char>>("# suite disabled by cloud-init: "@ + line),
    ensures
        source_line("# suite disabled by cloud-init: "@ + line, other) == Ok::<Seq<char>, Seq<char>>(
            "# suite disabled by cloud-init: "@ + line,
        ),
{
    reveal_strlit("#");
    reveal_strlit("# suite disabled by cloud-init: ");
    let written = "# suite disabled by cloud-init: "@ + line;
    assert(written[0] == '#');
    assert(written.subrange(0, 1) =~= "#"@);
}

/// Without suites to take out, a file of sources stays as it is.
pub proof fn nothing_to_take_out<H: Host>(m: Site<H>, src: Seq<char>, release: Seq<char>)
    ensures
        without_some::<H>(m, Seq::empty(), src, release) == (m, Ok::<Seq<char>, Seq<char>>(src)),
{
}

}
