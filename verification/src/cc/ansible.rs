//! Setting up ansible, and running it.

use vstd::prelude::*;

use crate::cc::ansible::host::{
    ask_do_as_user, ask_externally_managed, ask_has_pip, ask_install_packages, ask_stdout, ask_subp, ask_which,
    informed, log_info, log_warn, opt_str, warned, Control,
};
use crate::cc::version::{is_older, older, version_text};
use crate::cc::{cmd_output, cmd_text, unit_result, CmdError, CmdFailed};
use crate::machine::{lookup, lookup_text, set_in_table, table_set, text_table};
use crate::number::{dec_int, dec_int_of};
use crate::shlex::{shell_quote, shell_quoted};
use crate::show::{kind_name, kind_text, py_str, py_truthy, repr, repr_of, show, shown_list, shows, truthy};
use crate::space::{
    first_at, first_of, first_of_bounds, text_lines, text_lines_of, trim_start, trim_start_len, trim_start_of, Class,
};
use crate::text::{
    append_texts, argv1, argv2, argv3, argv4, argv5, cat2, cat3, cat7, chars_of, contains, copy_strings, holds, join,
    join_with, opt_text, replace, replaced, same, slice_text, texts,
};
use crate::value::{get, shift_removed, vals, Node, Object, Val};

pub mod host;
pub mod laws;

pub use crate::cc::ansible::host::{Fixture, Host};
pub use crate::cc::version::Version;

verus! {

/// How ansible is installed.
#[derive(Debug, Clone, Copy, PartialEq, Eq, Structural)]
pub enum Method {
    Pip,
    Distro,
}

/// What every command is run with.
pub struct Pull {
    pub method: Method,
    /// The interpreter.
    pub python: String,
    /// The user that commands are run as, if it is not this one.
    pub run_user: Option<String>,
    /// Variables that are set.
    pub env: Vec<(String, String)>,
}

pub struct PullSpec {
    pub method: Method,
    pub python: Seq<char>,
    pub run_user: Option<Seq<char>>,
    pub env: Seq<(Seq<char>, Seq<char>)>,
}

impl View for Pull {
    type V = PullSpec;

    open spec fn view(&self) -> PullSpec {
        PullSpec {
            method: self.method,
            python: self.python@,
            run_user: opt_text(self.run_user),
            env: text_table(self.env@),
        }
    }
}

/// Runs a command, as the user where one is set and else with the variables.
pub open spec fn run_as<H: Host>(m: Control<H>, p: PullSpec, argv: Seq<Seq<char>>, cwd: Option<Seq<char>>) -> (
    Control<H>,
    Result<Seq<char>, CmdFailed>,
) {
    match p.run_user {
        Some(user) => ask_do_as_user::<H>(m, argv, user, cwd),
        None => ask_subp::<H>(m, argv, p.env, cwd),
    }
}

impl Pull {
    fn do_as<H: Host>(&self, argv: &Vec<String>, cwd: Option<&str>, host: &mut H) -> (r: Result<String, CmdError>)
        ensures
            (final(host).machine(), cmd_output(r)) == run_as::<H>(
                old(host).machine(),
                self@,
                texts(argv@),
                opt_str(cwd),
            ),
    {
        match &self.run_user {
            Some(user) => host.do_as_user(argv, user.as_str(), cwd),
            None => host.subp(argv, &self.env, cwd),
        }
    }
}

/// The words that run something as a user: in a directory where one is given, and
/// with each word quoted for the shell.
pub open spec fn su_words(argv: Seq<Seq<char>>, user: Seq<char>, cwd: Option<Seq<char>>) -> Seq<Seq<char>> {
    let directory = match cwd {
        Some(dir) => "cd "@ + dir + " && "@,
        None => Seq::empty(),
    };
    let quoted = Seq::new(argv.len(), |i: int| shell_quoted(argv[i]));
    seq!["su"@, "-"@, user, "-c"@, directory + "env PATH=$PATH "@ + join(quoted, " "@)]
}

pub fn su_command(argv: &Vec<String>, user: &str, cwd: Option<&str>) -> (r: Vec<String>)
    ensures
        texts(r@) == su_words(texts(argv@), user@, opt_str(cwd)),
{
    let ghost all = texts(argv@);
    let ghost want = Seq::new(all.len(), |i: int| shell_quoted(all[i]));
    let mut words: Vec<String> = Vec::new();
    let mut i: usize = 0;
    assert(texts(words@) =~= want.take(0));
    while i < argv.len()
        invariant
            i <= argv@.len(),
            all == texts(argv@),
            want == Seq::new(all.len(), |i: int| shell_quoted(all[i])),
            texts(words@) == want.take(i as int),
        decreases argv.len() - i,
    {
        assert(all[i as int] == argv@[i as int]@);
        let ghost before = texts(words@);
        words.push(shell_quote(argv[i].as_str()));
        assert(texts(words@) =~= before.push(want[i as int]));
        i += 1;
        assert(want.take(i as int) =~= want.take(i - 1).push(want[i - 1]));
    }
    assert(want.take(i as int) =~= want);
    let directory = match cwd {
        Some(dir) => cat3("cd ", dir, " && "),
        None => {
            let none = String::new();
            assert(none@ =~= Seq::empty());
            none
        },
    };
    let line = cat3(directory.as_str(), "env PATH=$PATH ", join_with(&words, " ").as_str());
    argv5("su", "-", user, "-c", line.as_str())
}

// ---------------------------------------------------------------------------
// Installing

/// The words that use the interpreter's package manager.
pub open spec fn pip_words(p: PullSpec, action: Seq<char>) -> Seq<Seq<char>> {
    seq![p.python, "-m"@, "pip"@, action]
}

/// Words with one behind them where it applies.
pub open spec fn with_word(words: Seq<Seq<char>>, word: Seq<char>, applies: bool) -> Seq<Seq<char>> {
    if applies {
        words.push(word)
    } else {
        words
    }
}

fn add_word(words: &mut Vec<String>, word: &str, applies: bool)
    ensures
        texts(final(words)@) == with_word(texts(old(words)@), word@, applies),
{
    let ghost before = texts(words@);
    if applies {
        words.push(word.to_owned());
        assert(texts(words@) =~= before.push(word@));
    }
}

/// Whether ansible is there.
pub open spec fn installed<H: Host>(m: Control<H>, p: PullSpec) -> (Control<H>, Result<bool, Seq<char>>) {
    match p.method {
        Method::Distro => {
            let (m1, there) = ask_which::<H>(m, "ansible"@);
            (m1, Ok(there))
        },
        Method::Pip => {
            let (m1, out) = run_as::<H>(m, p, with_word(pip_words(p, "list"@), "--user"@, p.run_user is Some), None);
            (
                m1,
                match out {
                    Ok(out) => Ok(holds(out, "ansible"@)),
                    Err(e) => Err(cmd_text(e)),
                },
            )
        },
    }
}

pub open spec fn flag_result(r: Result<bool, String>) -> Result<bool, Seq<char>> {
    match r {
        Ok(b) => Ok(b),
        Err(e) => Err(e@),
    }
}

impl Pull {
    fn is_installed<H: Host>(&self, host: &mut H) -> (r: Result<bool, String>)
        ensures
            (final(host).machine(), flag_result(r)) == installed::<H>(old(host).machine(), self@),
    {
        match self.method {
            Method::Distro => Ok(host.which("ansible")),
            Method::Pip => {
                let mut argv = argv4(self.python.as_str(), "-m", "pip", "list");
                add_word(&mut argv, "--user", self.run_user.is_some());
                match self.do_as(&argv, None, host) {
                    Ok(out) => Ok(contains(out.as_str(), "ansible")),
                    Err(e) => Err(e.to_text()),
                }
            },
        }
    }
}

/// The search path with the directory of a user's programs behind it.
pub open spec fn path_with(env: Seq<(Seq<char>, Seq<char>)>, base: Seq<char>) -> Seq<char> {
    let own = base + "/bin/"@;
    match lookup(env, "PATH"@) {
        Some(path) => if path.len() > 0 {
            path + ":"@ + own
        } else {
            own
        },
        None => own,
    }
}

/// Puts the directory of the user's programs on the search path, where commands
/// are run as a user. What is printed of it is taken as it is.
pub open spec fn site_added<H: Host>(m: Control<H>, p: PullSpec) -> (Control<H>, Result<PullSpec, Seq<char>>) {
    if p.run_user is None {
        (m, Ok(p))
    } else {
        let (m1, base) = run_as::<H>(
            m,
            p,
            seq![p.python, "-c"@, "import site; print(site.getuserbase())"@],
            None,
        );
        (
            m1,
            match base {
                Err(e) => Err(cmd_text(e)),
                Ok(base) => Ok(PullSpec { env: table_set(p.env, "PATH"@, path_with(p.env, base)), ..p }),
            },
        )
    }
}

impl Pull {
    fn add_pip_install_site_to_path<H: Host>(&mut self, host: &mut H) -> (r: Result<(), String>)
        ensures
            ({
                let (m, p) = site_added::<H>(old(host).machine(), old(self)@);
                &&& final(host).machine() == m
                &&& match r {
                    Ok(()) => p == Ok::<PullSpec, Seq<char>>(final(self)@),
                    Err(e) => p == Err::<PullSpec, Seq<char>>(e@) && final(self)@ == old(self)@,
                }
            }),
    {
        if self.run_user.is_none() {
            return Ok(());
        }
        let argv = argv3(self.python.as_str(), "-c", "import site; print(site.getuserbase())");
        let base = match self.do_as(&argv, None, host) {
            Ok(base) => base,
            Err(e) => return Err(e.to_text()),
        };
        let own = cat2(base.as_str(), "/bin/");
        let path = match lookup_text(&self.env, "PATH") {
            Some(path) => if path.as_str().is_empty() {
                own
            } else {
                cat3(path.as_str(), ":", own.as_str())
            },
            None => own,
        };
        set_in_table(&mut self.env, "PATH", path.as_str());
        Ok(())
    }
}

/// A list of one package.
pub open spec fn one_package(name: Seq<char>) -> Val {
    Val::Array(seq![Val::Text(name)])
}

fn one_package_of(name: &str) -> (r: Node)
    ensures
        r@ == one_package(name@),
{
    let mut items: Vec<Node> = Vec::new();
    items.push(Node::text(name));
    assert(vals(items@) =~= seq![Val::Text(name@)]);
    Node::Array(items)
}

/// Installs a package with the interpreter's package manager, which is brought up
/// to date first if that can be done.
pub open spec fn pip_installed<H: Host>(m: Control<H>, p: PullSpec, package: Seq<char>) -> (
    Control<H>,
    Result<(), Seq<char>>,
) {
    let (m1, managed) = ask_externally_managed::<H>(m);
    let words = with_word(
        with_word(pip_words(p, "install"@), "--break-system-packages"@, managed),
        "--user"@,
        p.run_user is Some,
    );
    let m2 = pip_upgraded::<H>(m1, p, words);
    let (m3, done) = run_as::<H>(
        informed::<H>(m2, "Installing the "@ + package + " package"@),
        p,
        words.push(package),
        None,
    );
    match done {
        Ok(_) => (informed::<H>(m3, "Installed the "@ + package + " package"@), Ok(())),
        Err(e) => (m3, Err(cmd_text(e))),
    }
}

/// Brings the interpreter's package manager up to date. That this cannot be done is
/// only warned of.
pub open spec fn pip_upgraded<H: Host>(m: Control<H>, p: PullSpec, words: Seq<Seq<char>>) -> Control<H> {
    let (m1, upgraded) = run_as::<H>(
        informed::<H>(m, "Upgrading pip"@),
        p,
        words.push("--upgrade"@).push("pip"@),
        None,
    );
    match upgraded {
        Ok(_) => informed::<H>(m1, "Upgraded pip"@),
        Err(e) => warned::<H>(
            m1,
            "Failed at upgrading pip. This is usually not criticalso the script will skip this step.\n"@ + cmd_text(e),
        ),
    }
}

/// Sees that the interpreter's package manager is there.
pub open spec fn pip_ensured<H: Host>(m: Control<H>) -> (Control<H>, Result<(), Seq<char>>) {
    let (m1, there) = ask_has_pip::<H>(m);
    if there {
        (m1, Ok(()))
    } else {
        ask_install_packages::<H>(m1, one_package("python3-pip"@))
    }
}

/// Installs ansible unless it is there.
pub open spec fn install<H: Host>(m: Control<H>, p: PullSpec, package: Seq<char>) -> (Control<H>, Result<(), Seq<char>>) {
    let (m1, ready) = match p.method {
        Method::Distro => (m, Ok(())),
        Method::Pip => pip_ensured::<H>(m),
    };
    match ready {
        Err(e) => (m1, Err(e)),
        Ok(()) => {
            let (m2, there) = installed::<H>(m1, p);
            match there {
                Err(e) => (m2, Err(e)),
                Ok(true) => (m2, Ok(())),
                Ok(false) => match p.method {
                    Method::Distro => ask_install_packages::<H>(m2, one_package(package)),
                    Method::Pip => pip_installed::<H>(m2, p, package),
                },
            }
        },
    }
}

impl Pull {
    fn install_with_pip<H: Host>(&self, package: &str, host: &mut H) -> (r: Result<(), String>)
        ensures
            (final(host).machine(), unit_result(r)) == pip_installed::<H>(old(host).machine(), self@, package@),
    {
        let managed = host.externally_managed();
        let mut argv = argv4(self.python.as_str(), "-m", "pip", "install");
        add_word(&mut argv, "--break-system-packages", managed);
        add_word(&mut argv, "--user", self.run_user.is_some());
        let mut upgrade = copy_strings(&argv);
        add_word(&mut upgrade, "--upgrade", true);
        add_word(&mut upgrade, "pip", true);
        log_info(host, "Upgrading pip");
        match self.do_as(&upgrade, None, host) {
            Ok(_) => log_info(host, "Upgraded pip"),
            Err(e) => log_warn(
                host,
                cat2(
                    "Failed at upgrading pip. This is usually not criticalso the script will skip this step.\n",
                    e.to_text().as_str(),
                ).as_str(),
            ),
        }
        log_info(host, cat3("Installing the ", package, " package").as_str());
        add_word(&mut argv, package, true);
        match self.do_as(&argv, None, host) {
            Ok(_) => {
                log_info(host, cat3("Installed the ", package, " package").as_str());
                Ok(())
            },
            Err(e) => Err(e.to_text()),
        }
    }

    fn install<H: Host>(&self, package: &str, host: &mut H) -> (r: Result<(), String>)
        ensures
            (final(host).machine(), unit_result(r)) == install::<H>(old(host).machine(), self@, package@),
    {
        if let Method::Pip = self.method {
            if !host.has_pip() {
                match host.install_packages(&one_package_of("python3-pip")) {
                    Ok(()) => {},
                    Err(e) => return Err(e),
                }
            }
        }
        match self.is_installed(host) {
            Err(e) => return Err(e),
            Ok(there) => if there {
                return Ok(());
            },
        }
        match self.method {
            Method::Distro => host.install_packages(&one_package_of(package)),
            Method::Pip => self.install_with_pip(package, host),
        }
    }
}

// ---------------------------------------------------------------------------
// The version

/// The first run of digits and points in a text.
pub open spec fn numeral_in(line: Seq<char>) -> Option<Seq<char>> {
    let at = first_of(Class::Numeral, line);
    if at >= line.len() {
        None
    } else {
        let rest = line.skip(at);
        Some(rest.take(rest.len() - trim_start(Class::Numeral, rest).len()))
    }
}

/// The version in what is printed of it: that on the first line, if there is one.
pub open spec fn version_in(out: Seq<char>) -> Result<Option<Version>, Seq<char>> {
    let lines = text_lines(out);
    if lines.len() == 0 {
        Err("pop from empty list"@)
    } else {
        match numeral_in(lines[0]) {
            None => Ok(None),
            Some(text) => match version_text(text) {
                Ok(v) => Ok(Some(v)),
                Err(e) => Err(e),
            },
        }
    }
}

fn numeral_of(line: &str) -> (r: Option<String>)
    ensures
        opt_text(r) == numeral_in(line@),
{
    let a = chars_of(line);
    assert(a@.skip(0) =~= a@);
    let at = first_at(Class::Numeral, &a, 0);
    proof {
        first_of_bounds(Class::Numeral, line@);
    }
    if at >= a.len() {
        return None;
    }
    let rest = slice_text(&a, at, a.len());
    assert(rest@ =~= line@.skip(at as int));
    let b = chars_of(rest.as_str());
    let tail = chars_of(trim_start_of(Class::Numeral, rest.as_str()).as_str());
    proof {
        trim_start_len(Class::Numeral, rest@);
    }
    let n: usize = b.len() - tail.len();
    let run = slice_text(&b, 0, n);
    assert(run@ =~= rest@.take(n as int));
    Some(run)
}

pub open spec fn version_option(r: Result<Option<Version>, String>) -> Result<Option<Version>, Seq<char>> {
    match r {
        Ok(v) => Ok(v),
        Err(e) => Err(e@),
    }
}

pub fn version_from(out: &str) -> (r: Result<Option<Version>, String>)
    ensures
        version_option(r) == version_in(out@),
{
    let lines = text_lines_of(out);
    assert(texts(lines@).len() == lines@.len());
    if lines.len() == 0 {
        return Err("pop from empty list".to_owned());
    }
    assert(texts(lines@)[0] == lines@[0]@);
    match numeral_of(lines[0].as_str()) {
        None => Ok(None),
        Some(text) => match Version::from_str(text.as_str()) {
            Ok(v) => Ok(Some(v)),
            Err(e) => Err(e),
        },
    }
}

/// The version of ansible, if it can be read.
pub open spec fn ansible_version<H: Host>(m: Control<H>, p: PullSpec) -> (Control<H>, Result<Option<Version>, Seq<char>>) {
    let (m1, out) = run_as::<H>(m, p, seq!["ansible-pull"@, "--version"@], None);
    (
        m1,
        match out {
            Err(e) => Err(cmd_text(e)),
            Ok(out) => version_in(out),
        },
    )
}

impl Pull {
    fn get_version<H: Host>(&self, host: &mut H) -> (r: Result<Option<Version>, String>)
        ensures
            (final(host).machine(), version_option(r)) == ansible_version::<H>(old(host).machine(), self@),
    {
        match self.do_as(&argv2("ansible-pull", "--version"), None, host) {
            Ok(out) => version_from(out.as_str()),
            Err(e) => Err(e.to_text()),
        }
    }
}

// ---------------------------------------------------------------------------
// What the configuration must say

/// Whether something other than nothing is under a key.
pub open spec fn is_given(cfg: Seq<(Seq<char>, Val)>, key: Seq<char>) -> bool {
    get(cfg, key) matches Some(v) && truthy(v)
}

pub fn has_given(cfg: &Object, key: &str) -> (r: bool)
    ensures
        r == is_given(cfg@, key@),
{
    match cfg.get(key) {
        Some(v) => py_truthy(v),
        None => false,
    }
}

/// What is wrong with an entry to pull, if anything is.
pub open spec fn pull_fault(item: Val) -> Option<Seq<char>> {
    match item {
        Val::Object(p) => {
            let one = is_given(p, "playbook_name"@);
            let several = is_given(p, "playbook_names"@);
            if !is_given(p, "url"@) {
                Some("Missing required key 'url' from "@ + repr(item))
            } else if !one && !several {
                Some("Missing required key 'playbook_names' from "@ + repr(item))
            } else if one && several {
                Some(
                    "Key 'ansible.pull.playbook_name' and 'ansible.pull.playbook_names' are mutually exclusive. Please use 'playbook_names' in "@
                        + repr(item),
                )
            } else {
                None
            }
        },
        _ => Some("Invalid value of ansible.pull. Expected dict but found "@ + show(item)),
    }
}

/// What is wrong with the first of several entries that has a fault.
pub open spec fn pull_faults(items: Seq<Val>) -> Option<Seq<char>>
    decreases items.len(),
{
    if items.len() == 0 {
        None
    } else {
        match pull_fault(items[0]) {
            Some(e) => Some(e),
            None => pull_faults(items.skip(1)),
        }
    }
}

/// What is wrong with what is to be pulled.
pub open spec fn pulls_fault(cfg: Seq<(Seq<char>, Val)>) -> Option<Seq<char>> {
    match get(cfg, "pull"@) {
        None => None,
        Some(v) => if !truthy(v) {
            None
        } else {
            match v {
                Val::Object(_) => pull_fault(v),
                Val::Array(items) => pull_faults(items),
                _ => Some(
                    "Invalid value ansible.pull. Expected either dict of list of dicts but found "@ + show(v),
                ),
            }
        },
    }
}

/// What is wrong with the controller.
pub open spec fn controller_fault(cfg: Seq<(Seq<char>, Val)>) -> Option<Seq<char>> {
    match get(cfg, "setup_controller"@) {
        None => None,
        Some(v) => if !truthy(v) {
            None
        } else {
            match v {
                Val::Object(map) => if is_given(map, "repositories"@) || is_given(map, "run_ansible"@) {
                    None
                } else {
                    Some("Missing required key from "@ + repr(v))
                },
                _ => Some("'"@ + kind_text(v) + "' object has no attribute 'get'"@),
            }
        },
    }
}

/// What is wrong with a configuration, if anything is.
pub open spec fn config_fault(cfg: Seq<(Seq<char>, Val)>) -> Option<Seq<char>> {
    if !is_given(cfg, "install_method"@) {
        Some("Missing required key 'install_method' from "@ + repr(Val::Object(cfg)))
    } else if !is_given(cfg, "package_name"@) {
        Some("Missing required key 'package_name' from "@ + repr(Val::Object(cfg)))
    } else if pulls_fault(cfg) is Some {
        pulls_fault(cfg)
    } else if controller_fault(cfg) is Some {
        controller_fault(cfg)
    } else if get(cfg, "install_method"@) != Some(Val::Text("pip"@)) && get(cfg, "install_method"@) != Some(
        Val::Text("distro"@),
    ) {
        Some("Invalid install method {install}"@)
    } else {
        None
    }
}

fn check_pull(item: &Node) -> (r: Option<String>)
    ensures
        opt_text(r) == pull_fault(item@),
{
    let p = match item {
        Node::Object(p) => p,
        other => return Some(
            cat2("Invalid value of ansible.pull. Expected dict but found ", py_str(other).as_str()),
        ),
    };
    if !has_given(p, "url") {
        return Some(cat2("Missing required key 'url' from ", repr_of(item).as_str()));
    }
    let one = has_given(p, "playbook_name");
    let several = has_given(p, "playbook_names");
    if !one && !several {
        return Some(cat2("Missing required key 'playbook_names' from ", repr_of(item).as_str()));
    }
    if one && several {
        return Some(
            cat2(
                "Key 'ansible.pull.playbook_name' and 'ansible.pull.playbook_names' are mutually exclusive. Please use 'playbook_names' in ",
                repr_of(item).as_str(),
            ),
        );
    }
    None
}

fn check_pulls(cfg: &Object) -> (r: Option<String>)
    ensures
        opt_text(r) == pulls_fault(cfg@),
{
    let v = match cfg.get("pull") {
        Some(v) => v,
        None => return None,
    };
    if !py_truthy(v) {
        return None;
    }
    match v {
        Node::Object(_) => check_pull(v),
        Node::Array(items) => {
            let ghost all = vals(items@);
            let mut i: usize = 0;
            assert(all.skip(0) =~= all);
            while i < items.len()
                invariant
                    i <= items@.len(),
                    all == vals(items@),
                    get(cfg@, "pull"@) == Some(Val::Array(all)),
                    truthy(Val::Array(all)),
                    pull_faults(all.skip(i as int)) == pull_faults(all),
                decreases items.len() - i,
            {
                assert(all.skip(i as int)[0] == items@[i as int]@);
                assert(all.skip(i as int).skip(1) =~= all.skip(i + 1));
                if let Some(e) = check_pull(&items[i]) {
                    return Some(e);
                }
                i += 1;
            }
            None
        },
        other => Some(
            cat2(
                "Invalid value ansible.pull. Expected either dict of list of dicts but found ",
                py_str(other).as_str(),
            ),
        ),
    }
}

fn check_controller(cfg: &Object) -> (r: Option<String>)
    ensures
        opt_text(r) == controller_fault(cfg@),
{
    let v = match cfg.get("setup_controller") {
        Some(v) => v,
        None => return None,
    };
    if !py_truthy(v) {
        return None;
    }
    match v {
        Node::Object(map) => if has_given(map, "repositories") || has_given(map, "run_ansible") {
            None
        } else {
            Some(cat2("Missing required key from ", repr_of(v).as_str()))
        },
        other => Some(cat3("'", kind_name(other).as_str(), "' object has no attribute 'get'")),
    }
}

/// Refuses a configuration that something is wrong with.
pub fn validate_config(cfg: &Object) -> (r: Result<(), String>)
    ensures
        match r {
            Ok(()) => config_fault(cfg@) is None,
            Err(e) => config_fault(cfg@) == Some(e@),
        },
{
    if !has_given(cfg, "install_method") {
        let shown = repr_of(&Node::Object(cfg.clone()));
        return Err(cat2("Missing required key 'install_method' from ", shown.as_str()));
    }
    if !has_given(cfg, "package_name") {
        let shown = repr_of(&Node::Object(cfg.clone()));
        return Err(cat2("Missing required key 'package_name' from ", shown.as_str()));
    }
    if let Some(e) = check_pulls(cfg) {
        return Err(e);
    }
    if let Some(e) = check_controller(cfg) {
        return Err(e);
    }
    let known = match cfg.get("install_method") {
        Some(Node::Text(s)) => same(s.as_str(), "pip") || same(s.as_str(), "distro"),
        _ => false,
    };
    if !known {
        return Err("Invalid install method {install}".to_owned());
    }
    Ok(())
}

// ---------------------------------------------------------------------------
// Pulling

/// An option for a setting, with its value unless it is a plain yes.
pub open spec fn option_for(key: Seq<char>, v: Val, bare: bool) -> Seq<char> {
    let name = "--"@ + replaced(key, "_"@, "-"@);
    if bare && v == Val::Bool(true) {
        name
    } else {
        name + "="@ + show(v)
    }
}

/// The options for settings. What is switched off has none.
pub open spec fn options_for(cfg: Seq<(Seq<char>, Val)>, bare: bool) -> Seq<Seq<char>>
    decreases cfg.len(),
{
    if cfg.len() == 0 {
        Seq::empty()
    } else {
        let before = options_for(cfg.drop_last(), bare);
        if cfg.last().1 == Val::Bool(false) {
            before
        } else {
            before.push(option_for(cfg.last().0, cfg.last().1, bare))
        }
    }
}

fn options_of(cfg: &Object, bare: bool) -> (r: Vec<String>)
    ensures
        texts(r@) == options_for(cfg@, bare),
{
    proof {
        reveal_strlit("_");
    }
    let mut out: Vec<String> = Vec::new();
    let mut i: usize = 0;
    assert(texts(out@) =~= options_for(cfg@.take(0), bare));
    while i < cfg.len()
        invariant
            i <= cfg@.len(),
            "_"@.len() == 1,
            texts(out@) == options_for(cfg@.take(i as int), bare),
        decreases cfg@.len() - i,
    {
        let value = cfg.value_at(i);
        let off = match value {
            Node::Bool(b) => !*b,
            _ => false,
        };
        let on = match value {
            Node::Bool(b) => *b,
            _ => false,
        };
        if !off {
            let name = cat2("--", replace(cfg.key_at(i).as_str(), "_", "-").as_str());
            let option = if bare && on {
                name
            } else {
                cat3(name.as_str(), "=", py_str(value).as_str())
            };
            let ghost before = texts(out@);
            let ghost o = option@;
            out.push(option);
            assert(texts(out@) =~= before.push(o));
        }
        i += 1;
        assert(cfg@.take(i as int).drop_last() =~= cfg@.take(i - 1));
    }
    assert(cfg@.take(i as int) =~= cfg@);
    out
}

/// The playbooks of an entry.
pub open spec fn playbooks_in(cfg: Seq<(Seq<char>, Val)>) -> Result<Seq<Seq<char>>, Seq<char>> {
    if is_given(cfg, "playbook_name"@) {
        Ok(seq![show(get(cfg, "playbook_name"@)->0)])
    } else {
        match get(shift_removed(cfg, "playbook_name"@), "playbook_names"@) {
            Some(Val::Array(items)) => Ok(shows(items)),
            Some(other) => Err("'"@ + kind_text(other) + "' object is not iterable"@),
            None => Err("'"@ + kind_text(Val::Null) + "' object is not iterable"@),
        }
    }
}

/// The settings of an entry without its playbooks.
pub open spec fn pull_settings(cfg: Seq<(Seq<char>, Val)>) -> Seq<(Seq<char>, Val)> {
    shift_removed(shift_removed(cfg, "playbook_name"@), "playbook_names"@)
}

/// Takes the playbooks out of an entry.
fn take_playbooks(cfg: &mut Object) -> (r: Result<Vec<String>, String>)
    ensures
        crate::cc::texts_result(r) == playbooks_in(old(cfg)@),
        final(cfg)@ == pull_settings(old(cfg)@),
{
    let one = cfg.shift_remove("playbook_name");
    let several = cfg.shift_remove("playbook_names");
    if let Some(v) = one {
        if py_truthy(&v) {
            return Ok(argv1(py_str(&v).as_str()));
        }
    }
    match several {
        Some(Node::Array(items)) => Ok(shown_list(&items)),
        Some(other) => Err(cat3("'", kind_name(&other).as_str(), "' object is not iterable")),
        None => Err(cat3("'", kind_name(&Node::Null).as_str(), "' object is not iterable")),
    }
}

/// Whether a version comes before one of three numbers.
pub open spec fn is_before(version: Option<Version>, major: i64, minor: i64) -> bool {
    version matches Some(v) && older(v, Version { major, minor, patch: 0, rev: (-1) as i64 })
}

/// What an old version does not know, where it is asked for.
pub open spec fn unsupported(version: Option<Version>, cfg: Seq<(Seq<char>, Val)>) -> Option<Seq<char>> {
    if is_before(version, 2, 7) && is_given(cfg, "diff"@) {
        let v = version->0;
        Some(
            "Ansible version "@ + dec_int(v.major as int) + "."@ + dec_int(v.minor as int) + "."@ + dec_int(
                v.patch as int,
            ) + "doesn't support --diff flag, exiting."@,
        )
    } else {
        None
    }
}

/// Runs one pull, and prints what it printed.
pub open spec fn pulled<H: Host>(m: Control<H>, p: PullSpec, args: Seq<Seq<char>>) -> (Control<H>, Result<(), Seq<char>>) {
    let (m1, out) = run_as::<H>(m, p, seq!["ansible-pull"@] + args, None);
    match out {
        Err(e) => (m1, Err(cmd_text(e))),
        Ok(out) => if out.len() > 0 {
            (ask_stdout::<H>(m1, out), Ok(()))
        } else {
            (m1, Ok(()))
        },
    }
}

/// Runs a pull for each playbook.
pub open spec fn pulled_each<H: Host>(m: Control<H>, p: PullSpec, options: Seq<Seq<char>>, playbooks: Seq<Seq<char>>) -> (
    Control<H>,
    Result<(), Seq<char>>,
)
    decreases playbooks.len(),
{
    if playbooks.len() == 0 {
        (m, Ok(()))
    } else {
        let (m1, done) = pulled::<H>(m, p, options.push(playbooks[0]));
        match done {
            Err(e) => (m1, Err(e)),
            Ok(()) => pulled_each::<H>(m1, p, options, playbooks.skip(1)),
        }
    }
}

/// Pulls what an entry says: all playbooks at once where the version can do that,
/// and else one at a time.
pub open spec fn entry_pulled<H: Host>(m: Control<H>, p: PullSpec, cfg: Seq<(Seq<char>, Val)>) -> (
    Control<H>,
    Result<(), Seq<char>>,
) {
    match playbooks_in(cfg) {
        Err(e) => (m, Err(e)),
        Ok(playbooks) => {
            let settings = pull_settings(cfg);
            let (m1, version) = ansible_version::<H>(m, p);
            match version {
                Err(e) => (m1, Err(e)),
                Ok(version) => {
                    let m2 = if version is None {
                        warned::<H>(m1, "Cannot parse ansible version"@)
                    } else {
                        m1
                    };
                    match unsupported(version, settings) {
                        Some(e) => (m2, Err(e)),
                        None => {
                            let options = options_for(settings, true);
                            if version is Some && !is_before(version, 2, 12) {
                                pulled::<H>(m2, p, options + playbooks)
                            } else {
                                pulled_each::<H>(m2, p, options, playbooks)
                            }
                        },
                    }
                },
            }
        },
    }
}

fn unsupported_in(version: Option<Version>, cfg: &Object) -> (r: Option<String>)
    ensures
        opt_text(r) == unsupported(version, cfg@),
{
    if let Some(v) = version {
        if is_older(v, Version::new(2, 7, 0)) && has_given(cfg, "diff") {
            return Some(
                cat7(
                    "Ansible version ",
                    dec_int_of(v.major as i128).as_str(),
                    ".",
                    dec_int_of(v.minor as i128).as_str(),
                    ".",
                    dec_int_of(v.patch as i128).as_str(),
                    "doesn't support --diff flag, exiting.",
                ),
            );
        }
    }
    None
}

impl Pull {
    fn pull<H: Host>(&self, args: &Vec<String>, host: &mut H) -> (r: Result<(), String>)
        ensures
            (final(host).machine(), unit_result(r)) == pulled::<H>(old(host).machine(), self@, texts(args@)),
    {
        let mut command = argv1("ansible-pull");
        append_texts(&mut command, args);
        match self.do_as(&command, None, host) {
            Ok(out) => {
                if !out.as_str().is_empty() {
                    host.stdout(out.as_str());
                }
                Ok(())
            },
            Err(e) => Err(e.to_text()),
        }
    }

    fn pull_each<H: Host>(&self, options: &Vec<String>, playbooks: &Vec<String>, host: &mut H) -> (r: Result<(), String>)
        ensures
            (final(host).machine(), unit_result(r)) == pulled_each::<H>(
                old(host).machine(),
                self@,
                texts(options@),
                texts(playbooks@),
            ),
    {
        let ghost all = texts(playbooks@);
        let mut i: usize = 0;
        assert(all.skip(0) =~= all);
        while i < playbooks.len()
            invariant
                i <= playbooks@.len(),
                all == texts(playbooks@),
                pulled_each::<H>(host.machine(), self@, texts(options@), all.skip(i as int)) == pulled_each::<H>(
                    old(host).machine(),
                    self@,
                    texts(options@),
                    all,
                ),
            decreases playbooks.len() - i,
        {
            assert(all.skip(i as int)[0] == playbooks@[i as int]@);
            assert(all.skip(i as int).skip(1) =~= all.skip(i + 1));
            let mut args = copy_strings(options);
            add_word(&mut args, playbooks[i].as_str(), true);
            match self.pull(&args, host) {
                Ok(()) => {},
                Err(e) => return Err(e),
            }
            i += 1;
        }
        Ok(())
    }
}

pub fn run_ansible_pull<H: Host>(ansible: &Pull, cfg: &Object, host: &mut H) -> (r: Result<(), String>)
    ensures
        (final(host).machine(), unit_result(r)) == entry_pulled::<H>(old(host).machine(), ansible@, cfg@),
{
    let mut cfg = cfg.clone();
    let playbooks = match take_playbooks(&mut cfg) {
        Ok(playbooks) => playbooks,
        Err(e) => return Err(e),
    };
    let version = match ansible.get_version(host) {
        Ok(version) => version,
        Err(e) => return Err(e),
    };
    if version.is_none() {
        log_warn(host, "Cannot parse ansible version");
    }
    if let Some(e) = unsupported_in(version, &cfg) {
        return Err(e);
    }
    let mut options = options_of(&cfg, true);
    let together = match version {
        Some(v) => !is_older(v, Version::new(2, 12, 0)),
        None => false,
    };
    if together {
        append_texts(&mut options, &playbooks);
        ansible.pull(&options, host)
    } else {
        ansible.pull_each(&options, &playbooks, host)
    }
}

/// Pulls what several values say; what is no mapping is passed over.
pub open spec fn all_pulled<H: Host>(m: Control<H>, p: PullSpec, items: Seq<Val>) -> (Control<H>, Result<(), Seq<char>>)
    decreases items.len(),
{
    if items.len() == 0 {
        (m, Ok(()))
    } else {
        match items[0] {
            Val::Object(cfg) => {
                let (m1, done) = entry_pulled::<H>(m, p, cfg);
                match done {
                    Err(e) => (m1, Err(e)),
                    Ok(()) => all_pulled::<H>(m1, p, items.skip(1)),
                }
            },
            _ => all_pulled::<H>(m, p, items.skip(1)),
        }
    }
}

/// Pulls what a value says, which is one mapping or a list of them.
pub open spec fn value_pulled<H: Host>(m: Control<H>, p: PullSpec, v: Val) -> (Control<H>, Result<(), Seq<char>>) {
    match v {
        Val::Object(cfg) => entry_pulled::<H>(m, p, cfg),
        Val::Array(items) => all_pulled::<H>(m, p, items),
        _ => (m, Ok(())),
    }
}

fn pull_value<H: Host>(ansible: &Pull, v: &Node, host: &mut H) -> (r: Result<(), String>)
    ensures
        (final(host).machine(), unit_result(r)) == value_pulled::<H>(old(host).machine(), ansible@, v@),
{
    match v {
        Node::Object(cfg) => run_ansible_pull(ansible, cfg, host),
        Node::Array(items) => {
            let ghost all = vals(items@);
            let mut i: usize = 0;
            assert(all.skip(0) =~= all);
            while i < items.len()
                invariant
                    i <= items@.len(),
                    all == vals(items@),
                    v@ == Val::Array(all),
                    all_pulled::<H>(host.machine(), ansible@, all.skip(i as int)) == all_pulled::<H>(
                        old(host).machine(),
                        ansible@,
                        all,
                    ),
                decreases items.len() - i,
            {
                assert(all.skip(i as int)[0] == items@[i as int]@);
                assert(all.skip(i as int).skip(1) =~= all.skip(i + 1));
                if let Node::Object(cfg) = &items[i] {
                    match run_ansible_pull(ansible, cfg, host) {
                        Ok(()) => {},
                        Err(e) => return Err(e),
                    }
                }
                i += 1;
            }
            Ok(())
        },
        _ => Ok(()),
    }
}

// ---------------------------------------------------------------------------
// Galaxy and controller

/// Runs commands, each a list of words.
pub open spec fn actions_run<H: Host>(m: Control<H>, p: PullSpec, actions: Seq<Val>) -> (Control<H>, Result<(), Seq<char>>)
    decreases actions.len(),
{
    if actions.len() == 0 {
        (m, Ok(()))
    } else {
        match actions[0] {
            Val::Array(words) => {
                let (m1, out) = run_as::<H>(m, p, shows(words), None);
                match out {
                    Err(e) => (m1, Err(cmd_text(e))),
                    Ok(_) => actions_run::<H>(m1, p, actions.skip(1)),
                }
            },
            other => (m, Err("'"@ + kind_text(other) + "' object is not iterable"@)),
        }
    }
}

/// Runs the actions that a value lists. That it lists none is warned of.
pub open spec fn galaxy_run<H: Host>(m: Control<H>, p: PullSpec, v: Val) -> (Control<H>, Result<(), Seq<char>>) {
    match v {
        Val::Object(map) => match get(map, "actions"@) {
            Some(Val::Array(actions)) => if actions.len() > 0 {
                actions_run::<H>(m, p, actions)
            } else {
                (warned::<H>(m, "Invalid config: "@ + repr(v)), Ok(()))
            },
            Some(other) => (m, Err("'"@ + kind_text(other) + "' object is not iterable"@)),
            None => (warned::<H>(m, "Invalid config: "@ + repr(v)), Ok(())),
        },
        _ => (m, Err("'"@ + kind_text(v) + "' object has no attribute 'get'"@)),
    }
}

pub fn ansible_galaxy<H: Host>(cfg: &Node, ansible: &Pull, host: &mut H) -> (r: Result<(), String>)
    ensures
        (final(host).machine(), unit_result(r)) == galaxy_run::<H>(old(host).machine(), ansible@, cfg@),
{
    let map = match cfg {
        Node::Object(map) => map,
        other => return Err(cat3("'", kind_name(other).as_str(), "' object has no attribute 'get'")),
    };
    let actions = match map.get("actions") {
        Some(Node::Array(actions)) => actions,
        Some(other) => return Err(cat3("'", kind_name(other).as_str(), "' object is not iterable")),
        None => {
            log_warn(host, cat2("Invalid config: ", repr_of(cfg).as_str()).as_str());
            return Ok(());
        },
    };
    let ghost all = vals(actions@);
    assert(all.len() == actions@.len());
    if actions.len() == 0 {
        log_warn(host, cat2("Invalid config: ", repr_of(cfg).as_str()).as_str());
        return Ok(());
    }
    let mut i: usize = 0;
    assert(all.skip(0) =~= all);
    while i < actions.len()
        invariant
            i <= actions@.len(),
            all == vals(actions@),
            galaxy_run::<H>(old(host).machine(), ansible@, cfg@) == actions_run::<H>(
                old(host).machine(),
                ansible@,
                all,
            ),
            actions_run::<H>(host.machine(), ansible@, all.skip(i as int)) == actions_run::<H>(
                old(host).machine(),
                ansible@,
                all,
            ),
        decreases actions.len() - i,
    {
        assert(all.skip(i as int)[0] == actions@[i as int]@);
        assert(all.skip(i as int).skip(1) =~= all.skip(i + 1));
        match &actions[i] {
            Node::Array(words) => {
                match ansible.do_as(&shown_list(words), None, host) {
                    Ok(_) => {},
                    Err(e) => return Err(e.to_text()),
                }
            },
            other => return Err(cat3("'", kind_name(other).as_str(), "' object is not iterable")),
        }
        i += 1;
    }
    Ok(())
}

/// What is said of a value that cannot be asked for what is under a key.
pub open spec fn subscript_error(v: Val) -> Seq<char> {
    kind_text(v) + " indices must be integers or slices"@
}

/// Fetches repositories.
pub open spec fn repositories_cloned<H: Host>(m: Control<H>, p: PullSpec, items: Seq<Val>) -> (
    Control<H>,
    Result<(), Seq<char>>,
)
    decreases items.len(),
{
    if items.len() == 0 {
        (m, Ok(()))
    } else {
        match items[0] {
            Val::Object(entry) => match (get(entry, "source"@), get(entry, "path"@)) {
                (Some(source), Some(path)) => {
                    let (m1, out) = run_as::<H>(m, p, seq!["git"@, "clone"@, show(source), show(path)], None);
                    match out {
                        Err(e) => (m1, Err(cmd_text(e))),
                        Ok(_) => repositories_cloned::<H>(m1, p, items.skip(1)),
                    }
                },
                _ => (m, Err("'source'"@)),
            },
            other => (m, Err(subscript_error(other))),
        }
    }
}

/// The words that run a playbook.
pub open spec fn playbook_words(name: Val, settings: Seq<(Seq<char>, Val)>) -> Seq<Seq<char>> {
    seq!["ansible-playbook"@, show(name)] + options_for(settings, false)
}

/// Runs playbooks, each in its directory.
pub open spec fn playbooks_run<H: Host>(m: Control<H>, p: PullSpec, items: Seq<Val>) -> (Control<H>, Result<(), Seq<char>>)
    decreases items.len(),
{
    if items.len() == 0 {
        (m, Ok(()))
    } else {
        match items[0] {
            Val::Object(entry) => match (
                get(entry, "playbook_dir"@),
                get(shift_removed(entry, "playbook_dir"@), "playbook_name"@),
            ) {
                (None, _) => (m, Err("'playbook_dir'"@)),
                (_, None) => (m, Err("'playbook_name'"@)),
                (Some(dir), Some(name)) => {
                    let settings = shift_removed(shift_removed(entry, "playbook_dir"@), "playbook_name"@);
                    let (m1, out) = run_as::<H>(m, p, playbook_words(name, settings), Some(show(dir)));
                    match out {
                        Err(e) => (m1, Err(cmd_text(e))),
                        Ok(_) => playbooks_run::<H>(m1, p, items.skip(1)),
                    }
                },
            },
            other => (m, Err(subscript_error(other))),
        }
    }
}

/// Sets up the controller: its repositories, and what is run then.
pub open spec fn controller_run<H: Host>(m: Control<H>, p: PullSpec, v: Val) -> (Control<H>, Result<(), Seq<char>>) {
    match v {
        Val::Object(map) => {
            let (m1, cloned) = match get(map, "repositories"@) {
                Some(Val::Array(items)) => repositories_cloned::<H>(m, p, items),
                _ => (m, Ok(())),
            };
            match cloned {
                Err(e) => (m1, Err(e)),
                Ok(()) => match get(map, "run_ansible"@) {
                    Some(Val::Array(items)) => playbooks_run::<H>(m1, p, items),
                    _ => (m1, Ok(())),
                },
            }
        },
        _ => (m, Err("'"@ + kind_text(v) + "' object has no attribute 'get'"@)),
    }
}

fn clone_repositories<H: Host>(items: &Vec<Node>, ansible: &Pull, host: &mut H) -> (r: Result<(), String>)
    ensures
        (final(host).machine(), unit_result(r)) == repositories_cloned::<H>(
            old(host).machine(),
            ansible@,
            vals(items@),
        ),
{
    let ghost all = vals(items@);
    let mut i: usize = 0;
    assert(all.skip(0) =~= all);
    while i < items.len()
        invariant
            i <= items@.len(),
            all == vals(items@),
            repositories_cloned::<H>(host.machine(), ansible@, all.skip(i as int)) == repositories_cloned::<H>(
                old(host).machine(),
                ansible@,
                all,
            ),
        decreases items.len() - i,
    {
        assert(all.skip(i as int)[0] == items@[i as int]@);
        assert(all.skip(i as int).skip(1) =~= all.skip(i + 1));
        let entry = match &items[i] {
            Node::Object(entry) => entry,
            other => return Err(cat2(kind_name(other).as_str(), " indices must be integers or slices")),
        };
        let source = match entry.get("source") {
            Some(v) => py_str(v),
            None => return Err("'source'".to_owned()),
        };
        let path = match entry.get("path") {
            Some(v) => py_str(v),
            None => return Err("'source'".to_owned()),
        };
        match ansible.do_as(&argv4("git", "clone", source.as_str(), path.as_str()), None, host) {
            Ok(_) => {},
            Err(e) => return Err(e.to_text()),
        }
        i += 1;
    }
    Ok(())
}

fn run_playbooks<H: Host>(items: &Vec<Node>, ansible: &Pull, host: &mut H) -> (r: Result<(), String>)
    ensures
        (final(host).machine(), unit_result(r)) == playbooks_run::<H>(old(host).machine(), ansible@, vals(items@)),
{
    let ghost all = vals(items@);
    let mut i: usize = 0;
    assert(all.skip(0) =~= all);
    while i < items.len()
        invariant
            i <= items@.len(),
            all == vals(items@),
            playbooks_run::<H>(host.machine(), ansible@, all.skip(i as int)) == playbooks_run::<H>(
                old(host).machine(),
                ansible@,
                all,
            ),
        decreases items.len() - i,
    {
        assert(all.skip(i as int)[0] == items@[i as int]@);
        assert(all.skip(i as int).skip(1) =~= all.skip(i + 1));
        let mut entry = match &items[i] {
            Node::Object(entry) => entry.clone(),
            other => return Err(cat2(kind_name(other).as_str(), " indices must be integers or slices")),
        };
        let dir = match entry.shift_remove("playbook_dir") {
            Some(v) => py_str(&v),
            None => return Err("'playbook_dir'".to_owned()),
        };
        let name = match entry.shift_remove("playbook_name") {
            Some(v) => py_str(&v),
            None => return Err("'playbook_name'".to_owned()),
        };
        let mut argv = argv2("ansible-playbook", name.as_str());
        append_texts(&mut argv, &options_of(&entry, false));
        match ansible.do_as(&argv, Some(dir.as_str()), host) {
            Ok(_) => {},
            Err(e) => return Err(e.to_text()),
        }
        i += 1;
    }
    Ok(())
}

pub fn ansible_controller<H: Host>(cfg: &Node, ansible: &Pull, host: &mut H) -> (r: Result<(), String>)
    ensures
        (final(host).machine(), unit_result(r)) == controller_run::<H>(old(host).machine(), ansible@, cfg@),
{
    let map = match cfg {
        Node::Object(map) => map,
        other => return Err(cat3("'", kind_name(other).as_str(), "' object has no attribute 'get'")),
    };
    if let Some(Node::Array(items)) = map.get("repositories") {
        match clone_repositories(items, ansible, host) {
            Ok(()) => {},
            Err(e) => return Err(e),
        }
    }
    if let Some(Node::Array(items)) = map.get("run_ansible") {
        return run_playbooks(items, ansible, host);
    }
    Ok(())
}

// ---------------------------------------------------------------------------
// The module

/// The text under a key.
pub open spec fn text_at(cfg: Seq<(Seq<char>, Val)>, key: Seq<char>) -> Option<Seq<char>> {
    match get(cfg, key) {
        Some(Val::Text(s)) => Some(s),
        _ => None,
    }
}

fn text_under(cfg: &Object, key: &str) -> (r: Option<String>)
    ensures
        opt_text(r) == text_at(cfg@, key@),
{
    match cfg.get(key) {
        Some(Node::Text(s)) => Some(s.clone()),
        _ => None,
    }
}

/// What commands are run with to begin with.
pub open spec fn first_pull(cfg: Seq<(Seq<char>, Val)>, python: Seq<char>, home: Seq<char>) -> PullSpec {
    PullSpec {
        method: if text_at(cfg, "install_method"@) == Some("pip"@) {
            Method::Pip
        } else {
            Method::Distro
        },
        python,
        run_user: text_at(cfg, "run_user"@),
        env: seq![("HOME"@, home)],
    }
}

/// What commands are run with once a configuration file is named.
pub open spec fn with_config(p: PullSpec, cfg: Seq<(Seq<char>, Val)>) -> PullSpec {
    match text_at(cfg, "ansible_config"@) {
        Some(file) => if file.len() > 0 {
            PullSpec { env: table_set(p.env, "ansible_config"@, file), ..p }
        } else {
            p
        },
        None => p,
    }
}

/// What follows once ansible is there: galaxy, pulling, and the controller.
pub open spec fn tasks_run<H: Host>(m: Control<H>, p: PullSpec, cfg: Seq<(Seq<char>, Val)>) -> (
    Control<H>,
    Result<(), Seq<char>>,
) {
    let (m1, first) = if is_given(cfg, "galaxy"@) {
        galaxy_run::<H>(m, p, get(cfg, "galaxy"@)->0)
    } else {
        (m, Ok(()))
    };
    match first {
        Err(e) => (m1, Err(e)),
        Ok(()) => {
            let (m2, second) = if is_given(cfg, "pull"@) {
                value_pulled::<H>(m1, p, get(cfg, "pull"@)->0)
            } else {
                (m1, Ok(()))
            };
            match second {
                Err(e) => (m2, Err(e)),
                Ok(()) => if is_given(cfg, "setup_controller"@) {
                    controller_run::<H>(m2, p, get(cfg, "setup_controller"@)->0)
                } else {
                    (m2, Ok(()))
                },
            }
        },
    }
}

/// Installs ansible and sees that it is there, then runs what is configured.
pub open spec fn installed_and_run<H: Host>(m: Control<H>, p: PullSpec, cfg: Seq<(Seq<char>, Val)>) -> (
    Control<H>,
    Result<(), Seq<char>>,
) {
    let package = match text_at(cfg, "package_name"@) {
        Some(s) => s,
        None => ""@,
    };
    let (m1, done) = install::<H>(m, p, package);
    match done {
        Err(e) => (m1, Err(e)),
        Ok(()) => {
            let (m2, there) = installed::<H>(m1, p);
            match there {
                Err(e) => (m2, Err(e)),
                Ok(false) => (m2, Err("command: ansible is not installed"@)),
                Ok(true) => tasks_run::<H>(m2, with_config(p, cfg), cfg),
            }
        },
    }
}

/// Sets up ansible with a configuration that is a mapping.
pub open spec fn set_up_block<H: Host>(m: Control<H>, cfg: Seq<(Seq<char>, Val)>, python: Seq<char>, home: Seq<char>) -> (
    Control<H>,
    Result<(), Seq<char>>,
) {
    if cfg.len() == 0 {
        (m, Ok(()))
    } else {
        match config_fault(cfg) {
            Some(e) => (m, Err(e)),
            None => {
                let p = first_pull(cfg, python, home);
                let (m1, ready) = match p.method {
                    Method::Pip => site_added::<H>(m, p),
                    Method::Distro => (m, Ok(p)),
                };
                match ready {
                    Err(e) => (m1, Err(e)),
                    Ok(p) => installed_and_run::<H>(m1, p, cfg),
                }
            },
        }
    }
}

/// Sets up ansible, where the configuration speaks of it.
pub open spec fn set_up<H: Host>(m: Control<H>, cfg: Seq<(Seq<char>, Val)>, python: Seq<char>, home: Seq<char>) -> (
    Control<H>,
    Result<(), Seq<char>>,
) {
    match get(cfg, "ansible"@) {
        None => (m, Ok(())),
        Some(Val::Object(block)) => set_up_block::<H>(m, block, python, home),
        Some(other) => (m, Err("'"@ + kind_text(other) + "' object has no attribute 'get'"@)),
    }
}

fn run_tasks<H: Host>(ansible: &Pull, cfg: &Object, host: &mut H) -> (r: Result<(), String>)
    ensures
        (final(host).machine(), unit_result(r)) == tasks_run::<H>(old(host).machine(), ansible@, cfg@),
{
    if let Some(v) = cfg.get("galaxy") {
        if py_truthy(v) {
            match ansible_galaxy(v, ansible, host) {
                Ok(()) => {},
                Err(e) => return Err(e),
            }
        }
    }
    if let Some(v) = cfg.get("pull") {
        if py_truthy(v) {
            match pull_value(ansible, v, host) {
                Ok(()) => {},
                Err(e) => return Err(e),
            }
        }
    }
    if let Some(v) = cfg.get("setup_controller") {
        if py_truthy(v) {
            return ansible_controller(v, ansible, host);
        }
    }
    Ok(())
}

/// Sets up ansible, where the configuration speaks of it.
pub fn handle_with<H: Host>(cfg: &Object, python: &str, home: &str, host: &mut H) -> (r: Result<(), String>)
    ensures
        (final(host).machine(), unit_result(r)) == set_up::<H>(old(host).machine(), cfg@, python@, home@),
{
    let block = match cfg.get("ansible") {
        None => return Ok(()),
        Some(Node::Object(block)) => block,
        Some(other) => return Err(cat3("'", kind_name(other).as_str(), "' object has no attribute 'get'")),
    };
    if block.is_empty() {
        return Ok(());
    }
    match validate_config(block) {
        Ok(()) => {},
        Err(e) => return Err(e),
    }
    let pip = match text_under(block, "install_method") {
        Some(s) => same(s.as_str(), "pip"),
        None => false,
    };
    let mut env: Vec<(String, String)> = Vec::new();
    env.push(("HOME".to_owned(), home.to_owned()));
    assert(text_table(env@) =~= seq![("HOME"@, home@)]);
    let mut ansible = Pull {
        method: if pip {
            Method::Pip
        } else {
            Method::Distro
        },
        python: python.to_owned(),
        run_user: text_under(block, "run_user"),
        env,
    };
    assert(ansible@ == first_pull(block@, python@, home@));
    if pip {
        match ansible.add_pip_install_site_to_path(host) {
            Ok(()) => {},
            Err(e) => return Err(e),
        }
    }
    let package = match text_under(block, "package_name") {
        Some(s) => s,
        None => "".to_owned(),
    };
    match ansible.install(package.as_str(), host) {
        Ok(()) => {},
        Err(e) => return Err(e),
    }
    match ansible.is_installed(host) {
        Err(e) => return Err(e),
        Ok(there) => if !there {
            return Err("command: ansible is not installed".to_owned());
        },
    }
    if let Some(file) = text_under(block, "ansible_config") {
        if !file.as_str().is_empty() {
            set_in_table(&mut ansible.env, "ansible_config", file.as_str());
        }
    }
    run_tasks(&ansible, block, host)
}

// ---------------------------------------------------------------------------
// Laws

/// A configuration with a fault is refused with it before the machine is asked
/// anything.
pub proof fn refused_configuration_asks_nothing<H: Host>(
    m: Control<H>,
    cfg: Seq<(Seq<char>, Val)>,
    block: Seq<(Seq<char>, Val)>,
    python: Seq<char>,
    home: Seq<char>,
)
    requires
        get(cfg, "ansible"@) == Some(Val::Object(block)),
        block.len() > 0,
        config_fault(block) is Some,
    ensures
        set_up::<H>(m, cfg, python, home) == (m, Err::<(), Seq<char>>(config_fault(block)->0)),
{
}

/// Commands that are run as a user do not depend on the variables.
pub proof fn a_user_has_no_variables<H: Host>(
    m: Control<H>,
    p: PullSpec,
    env: Seq<(Seq<char>, Seq<char>)>,
    argv: Seq<Seq<char>>,
    cwd: Option<Seq<char>>,
)
    requires
        p.run_user is Some,
    ensures
        run_as::<H>(m, p, argv, cwd) == run_as::<H>(m, PullSpec { env, ..p }, argv, cwd),
{
}

}
