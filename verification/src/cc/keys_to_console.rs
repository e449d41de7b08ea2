//! Putting the fingerprints of the machine's keys on its console.

use vstd::prelude::*;

use crate::cc::keys_to_console::host::{
    ask_multi_log, ask_path_exists, ask_subp, log_debug, log_warn, logged, warned, Call, Keys, SOURCE,
};
use crate::cc::{cmd_text, text_result, unit_result};
use crate::machine::Level;
use crate::number::{dec, dec_of};
use crate::show::{is_false, kind_name, kind_text, py_str, show, switched_off};
use crate::space::{trim, trim_of, Class};
use crate::text::{argv1, argv3, cat2, cat3, cat4, cat5, join, join_with, texts};
use crate::value::{get, vals, Node, Object, Val};

pub mod host;
pub mod laws;

pub use crate::cc::keys_to_console::host::{Fixture, Host};

verus! {

/// The path of the helper program.
pub open spec fn helper_path(usr_lib_exec: Seq<char>) -> Seq<char> {
    usr_lib_exec + "/cloud-init/write-ssh-key-fingerprints"@
}

pub fn helper_tool_path(usr_lib_exec: &str) -> (r: String)
    ensures
        r@ == helper_path(usr_lib_exec@),
{
    cat2(usr_lib_exec, "/cloud-init/write-ssh-key-fingerprints")
}

/// The texts in a list, or what is said of the first value that is none. The
/// values have that many others before them.
pub open spec fn texts_in(items: Seq<Val>, before: nat) -> Result<Seq<Seq<char>>, Seq<char>>
    decreases items.len(),
{
    if items.len() == 0 {
        Ok(Seq::empty())
    } else {
        match items[0] {
            Val::Text(s) => match texts_in(items.skip(1), before + 1) {
                Ok(rest) => Ok(seq![s] + rest),
                Err(e) => Err(e),
            },
            other => Err(
                "sequence item "@ + dec(before) + ": expected str instance, "@ + kind_text(other) + " found"@,
            ),
        }
    }
}

/// What is under a key as one text: texts in a list with commas between them, and
/// what is no list as it is printed.
pub open spec fn blacklist(cfg: Seq<(Seq<char>, Val)>, key: Seq<char>) -> Result<Seq<char>, Seq<char>> {
    match get(cfg, key) {
        None => Ok(join(Seq::empty(), ","@)),
        Some(Val::Null) => Ok(join(Seq::empty(), ","@)),
        Some(Val::Array(items)) => match texts_in(items, 0) {
            Ok(list) => Ok(join(list, ","@)),
            Err(e) => Err(e),
        },
        Some(other) => Ok(join(seq![show(other)], ","@)),
    }
}

/// A list of texts with more before it.
pub open spec fn behind(head: Seq<Seq<char>>, r: Result<Seq<Seq<char>>, Seq<char>>) -> Result<Seq<Seq<char>>, Seq<char>> {
    match r {
        Ok(rest) => Ok(head + rest),
        Err(e) => Err(e),
    }
}

fn joined(cfg: &Object, key: &str) -> (r: Result<String, String>)
    ensures
        text_result(r) == blacklist(cfg@, key@),
{
    let mut out: Vec<String> = Vec::new();
    assert(texts(out@) =~= Seq::empty());
    match cfg.get(key) {
        None => {},
        Some(Node::Null) => {},
        Some(Node::Array(items)) => {
            let ghost all = vals(items@);
            let mut i: usize = 0;
            assert(all.skip(0) =~= all);
            assert(behind(texts(out@), texts_in(all, 0)) == texts_in(all, 0)) by {
                if let Ok(rest) = texts_in(all, 0) {
                    assert(Seq::<Seq<char>>::empty() + rest =~= rest);
                }
            }
            while i < items.len()
                invariant
                    i <= items@.len(),
                    all == vals(items@),
                    get(cfg@, key@) == Some(Val::Array(all)),
                    behind(texts(out@), texts_in(all.skip(i as int), i as nat)) == texts_in(all, 0),
                decreases items.len() - i,
            {
                let ghost rest = all.skip(i as int);
                assert(rest[0] == items@[i as int]@);
                assert(rest.skip(1) =~= all.skip(i + 1));
                match &items[i] {
                    Node::Text(s) => {
                        let ghost before = texts(out@);
                        out.push(s.clone());
                        assert(texts(out@) =~= before.push(s@));
                        assert(behind(before, texts_in(rest, i as nat)) == behind(
                            texts(out@),
                            texts_in(rest.skip(1), (i + 1) as nat),
                        )) by {
                            if let Ok(more) = texts_in(rest.skip(1), (i + 1) as nat) {
                                assert(before + (seq![s@] + more) =~= texts(out@) + more);
                            }
                        }
                    },
                    other => {
                        return Err(
                            cat5(
                                "sequence item ",
                                dec_of(i as u128).as_str(),
                                ": expected str instance, ",
                                kind_name(other).as_str(),
                                " found",
                            ),
                        );
                    },
                }
                i += 1;
            }
            assert(texts(out@) + Seq::<Seq<char>>::empty() =~= texts(out@));
        },
        Some(other) => {
            out = argv1(py_str(other).as_str());
        },
    }
    Ok(join_with(&out, ","))
}

/// Runs the helper program and puts what it printed on the console, with one line
/// feed behind it.
pub open spec fn helper_run<H: Host>(m: Keys<H>, cfg: Seq<(Seq<char>, Val)>, helper: Seq<char>) -> (
    Keys<H>,
    Result<(), Seq<char>>,
) {
    match blacklist(cfg, "ssh_fp_console_blacklist"@) {
        Err(e) => (m, Err(e)),
        Ok(fingerprints) => match blacklist(cfg, "ssh_key_console_blacklist"@) {
            Err(e) => (m, Err(e)),
            Ok(keys) => {
                let (m1, out) = ask_subp::<H>(m, seq![helper, fingerprints, keys]);
                match out {
                    Err(e) => (m1, Err(cmd_text(e))),
                    Ok(out) => (ask_multi_log::<H>(m1, trim(Class::TextSpace, out) + "\n"@), Ok(())),
                }
            },
        },
    }
}

fn run_helper<H: Host>(cfg: &Object, helper: &str, host: &mut H) -> (r: Result<(), String>)
    ensures
        (final(host).machine(), unit_result(r)) == helper_run::<H>(old(host).machine(), cfg@, helper@),
{
    let fingerprints = match joined(cfg, "ssh_fp_console_blacklist") {
        Ok(s) => s,
        Err(e) => return Err(e),
    };
    let keys = match joined(cfg, "ssh_key_console_blacklist") {
        Ok(s) => s,
        Err(e) => return Err(e),
    };
    match host.subp(&argv3(helper, fingerprints.as_str(), keys.as_str())) {
        Ok(out) => {
            host.multi_log(cat2(trim_of(Class::TextSpace, out.as_str()).as_str(), "\n").as_str());
            Ok(())
        },
        Err(e) => Err(e.to_text()),
    }
}

/// Whether keys are to be put on the console, or what is wrong with the
/// configuration.
pub open spec fn emits(cfg: Seq<(Seq<char>, Val)>) -> Result<bool, Seq<char>> {
    match get(cfg, "ssh"@) {
        None => Ok(true),
        Some(Val::Object(ssh)) => Ok(
            match get(ssh, "emit_keys_to_console"@) {
                Some(v) => !switched_off(v),
                None => true,
            },
        ),
        Some(other) => Err("'"@ + kind_text(other) + "' object has no attribute 'get'"@),
    }
}

/// What is said where putting keys on the console is switched off.
pub open spec fn off_text(name: Seq<char>) -> Seq<char> {
    "Skipping module named "@ + name + ", logging of SSH host keys disabled"@
}

/// What is said where there is no helper program.
pub open spec fn no_helper_text(name: Seq<char>, helper: Seq<char>) -> Seq<char> {
    "Unable to activate module "@ + name + ", helper tool not found at "@ + helper
}

/// Puts the fingerprints on the console, unless that is switched off or there is
/// no helper program. Each of the two is said in the log, and so is a failure.
pub open spec fn shown_on_console<H: Host>(
    m: Keys<H>,
    name: Seq<char>,
    cfg: Seq<(Seq<char>, Val)>,
    usr_lib_exec: Seq<char>,
) -> (Keys<H>, Result<(), Seq<char>>) {
    let helper = helper_path(usr_lib_exec);
    match emits(cfg) {
        Err(e) => (m, Err(e)),
        Ok(false) => (logged::<H>(m, off_text(name)), Ok(())),
        Ok(true) => {
            let (m1, there) = ask_path_exists::<H>(m, helper);
            if there {
                let (m2, r) = helper_run::<H>(m1, cfg, helper);
                match r {
                    Ok(()) => (m2, Ok(())),
                    Err(e) => (warned::<H>(m2, "Writing keys to the system console failed!"@), Err(e)),
                }
            } else {
                (warned::<H>(m1, no_helper_text(name, helper)), Ok(()))
            }
        },
    }
}

/// Puts the fingerprints of the machine's keys on its console.
pub fn handle_with<H: Host>(name: &str, cfg: &Object, usr_lib_exec: &str, host: &mut H) -> (r: Result<(), String>)
    ensures
        (final(host).machine(), unit_result(r)) == shown_on_console::<H>(
            old(host).machine(),
            name@,
            cfg@,
            usr_lib_exec@,
        ),
{
    match cfg.get("ssh") {
        None => {},
        Some(Node::Object(ssh)) => {
            if let Some(v) = ssh.get("emit_keys_to_console") {
                if is_false(v) {
                    log_debug(
                        host,
                        cat3("Skipping module named ", name, ", logging of SSH host keys disabled").as_str(),
                    );
                    return Ok(());
                }
            }
        },
        Some(other) => return Err(cat3("'", kind_name(other).as_str(), "' object has no attribute 'get'")),
    }
    let helper = helper_tool_path(usr_lib_exec);
    if !host.path_exists(helper.as_str()) {
        log_warn(
            host,
            cat4("Unable to activate module ", name, ", helper tool not found at ", helper.as_str()).as_str(),
        );
        return Ok(());
    }
    match run_helper(cfg, helper.as_str(), host) {
        Ok(()) => Ok(()),
        Err(e) => {
            log_warn(host, "Writing keys to the system console failed!");
            Err(e)
        },
    }
}

// ---------------------------------------------------------------------------
// Laws

/// Where it is switched off, all that happens is a line in the log that says so.
pub proof fn switched_off_asks_nothing<H: Host>(
    m: Keys<H>,
    name: Seq<char>,
    cfg: Seq<(Seq<char>, Val)>,
    usr_lib_exec: Seq<char>,
)
    requires
        emits(cfg) == Ok::<bool, Seq<char>>(false),
    ensures
        shown_on_console::<H>(m, name, cfg, usr_lib_exec) == (
            logged::<H>(m, off_text(name)),
            Ok::<(), Seq<char>>(()),
        ),
{
}

/// Whatever goes wrong once the helper program was found, the last thing that is
/// done is to warn of it.
pub proof fn failures_are_warned_of<H: Host>(
    m: Keys<H>,
    name: Seq<char>,
    cfg: Seq<(Seq<char>, Val)>,
    usr_lib_exec: Seq<char>,
)
    requires
        emits(cfg) is Ok,
        shown_on_console::<H>(m, name, cfg, usr_lib_exec).1 is Err,
    ensures
        shown_on_console::<H>(m, name, cfg, usr_lib_exec).0.calls.last() == (Call::Report {
            level: Level::Warning,
            source: SOURCE@,
            text: "Writing keys to the system console failed!"@,
        }),
{
}

/// Texts in a list are all that is needed for the helper program to be run.
pub proof fn texts_are_taken(items: Seq<Val>, before: nat)
    requires
        forall|i: int| 0 <= i < items.len() ==> #[trigger] items[i] is Text,
    ensures
        texts_in(items, before) is Ok,
    decreases items.len(),
{
    if items.len() > 0 {
        assert(items[0] is Text);
        assert forall|i: int| 0 <= i < items.skip(1).len() implies #[trigger] items.skip(1)[i] is Text by {
            assert(items.skip(1)[i] == items[i + 1]);
        }
        texts_are_taken(items.skip(1), before + 1);
    }
}

}
