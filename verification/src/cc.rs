//! The configuration modules, and what they share.

use vstd::prelude::*;

use crate::cc::growpart::{report, Failed, ProcError};
use crate::machine::{lookup, lookup_text, text_table};
use crate::show::{kind_name, kind_text, py_str, show};
use crate::text::{cat3, contains, copy_strings, holds, same, texts};
use crate::value::{copy_values, get, vals, Node, Object, Val};

pub mod ansible;
pub mod apt_configure;
pub mod apt_pipelining;
pub mod bootcmd;
pub mod ca_certs;
pub mod chef;
pub mod disk_setup;
pub mod final_message;
pub mod growpart;
pub mod keys_to_console;
pub mod locale;
pub mod mcollective;
pub mod mounts;
pub mod package_update_upgrade_install;
pub mod puppet;
pub mod resizefs;
pub mod script;
pub mod table;
pub mod version;

pub use crate::cc::table::{handler, Handler};

verus! {

/// The list under a key: a list is itself, nothing is the empty list, and any
/// other value is a list of its printed form.
pub open spec fn option_items(m: Seq<(Seq<char>, Val)>, key: Seq<char>, default: Seq<Val>) -> Seq<Val> {
    match get(m, key) {
        None => default,
        Some(Val::Null) => Seq::empty(),
        Some(Val::Array(items)) => items,
        Some(other) => seq![Val::Text(show(other))],
    }
}

pub fn cfg_option_list(m: &Object, key: &str, default: Vec<Node>) -> (r: Vec<Node>)
    ensures
        vals(r@) == option_items(m@, key@, vals(default@)),
{
    let mut out: Vec<Node> = Vec::new();
    match m.get(key) {
        None => default,
        Some(Node::Null) => {
            assert(vals(out@) =~= Seq::empty());
            out
        },
        Some(Node::Array(items)) => copy_values(items),
        Some(other) => {
            out.push(Node::Text(py_str(other)));
            assert(vals(out@) =~= seq![Val::Text(show(other@))]);
            out
        },
    }
}

/// What is looked up under a key in a value that need not be a mapping. A list or
/// a text that has the key in it cannot be asked for what is under it.
pub open spec fn option_in(block: Val, key: Seq<char>) -> Result<Option<Val>, Seq<char>> {
    match block {
        Val::Object(m) => Ok(get(m, key)),
        Val::Array(items) => if items.contains(Val::Text(key)) {
            Err("list indices must be integers or slices, not str"@)
        } else {
            Ok(None)
        },
        Val::Text(text) => if holds(text, key) {
            Err("string indices must be integers, not 'str'"@)
        } else {
            Ok(None)
        },
        _ => Err("argument of type '"@ + kind_text(block) + "' is not a container or iterable"@),
    }
}

/// An optional value or an error.
pub open spec fn option_result(r: Result<Option<Node>, String>) -> Result<Option<Val>, Seq<char>> {
    match r {
        Ok(Some(v)) => Ok(Some(v@)),
        Ok(None) => Ok(None),
        Err(e) => Err(e@),
    }
}

pub fn sub_option(block: &Node, key: &str) -> (r: Result<Option<Node>, String>)
    ensures
        option_result(r) == option_in(block@, key@),
{
    match block {
        Node::Object(m) => match m.get(key) {
            Some(v) => Ok(Some(v.clone())),
            None => Ok(None),
        },
        Node::Array(items) => {
            let ghost all = vals(items@);
            let mut i: usize = 0;
            while i < items.len()
                invariant
                    i <= items@.len(),
                    all == vals(items@),
                    block@ == Val::Array(all),
                    forall|j: int| 0 <= j < i ==> all[j] != Val::Text(key@),
                decreases items.len() - i,
            {
                assert(all[i as int] == items@[i as int]@);
                if let Node::Text(s) = &items[i] {
                    if same(s.as_str(), key) {
                        assert(all.contains(Val::Text(key@)));
                        return Err("list indices must be integers or slices, not str".to_owned());
                    }
                }
                i += 1;
            }
            Ok(None)
        },
        Node::Text(text) => if contains(text.as_str(), key) {
            Err("string indices must be integers, not 'str'".to_owned())
        } else {
            Ok(None)
        },
        other => Err(
            cat3("argument of type '", kind_name(other).as_str(), "' is not a container or iterable"),
        ),
    }
}

/// What a mapping holds under a key; only a mapping can be asked.
pub open spec fn member_in(block: Val, key: Seq<char>) -> Result<Option<Val>, Seq<char>> {
    match block {
        Val::Object(m) => Ok(get(m, key)),
        _ => Err("'"@ + kind_text(block) + "' object has no attribute 'get'"@),
    }
}

pub fn dict_get(block: &Node, key: &str) -> (r: Result<Option<Node>, String>)
    ensures
        option_result(r) == member_in(block@, key@),
{
    match block {
        Node::Object(m) => match m.get(key) {
            Some(v) => Ok(Some(v.clone())),
            None => Ok(None),
        },
        other => Err(cat3("'", kind_name(other).as_str(), "' object has no attribute 'get'")),
    }
}

// ---------------------------------------------------------------------------
// Failed commands

/// A command that failed, with its words as they are printed.
#[derive(Debug, Clone, PartialEq, Eq)]
pub struct CmdError {
    pub command: String,
    pub exit_code: Option<i32>,
    pub stdout: String,
    pub stderr: String,
}

/// The mathematical form of a [`CmdError`].
pub struct CmdFailed {
    pub command: Seq<char>,
    pub exit_code: Option<int>,
    pub stdout: Seq<char>,
    pub stderr: Seq<char>,
}

impl View for CmdError {
    type V = CmdFailed;

    open spec fn view(&self) -> CmdFailed {
        CmdFailed {
            command: self.command@,
            exit_code: match self.exit_code {
                Some(code) => Some(code as int),
                None => None,
            },
            stdout: self.stdout@,
            stderr: self.stderr@,
        }
    }
}

/// What a failed command is reported as.
pub open spec fn cmd_text(e: CmdFailed) -> Seq<char> {
    report(
        e.command,
        Failed { argv: Seq::empty(), exit_code: e.exit_code, stdout: e.stdout, stderr: e.stderr },
    )
}

impl CmdError {
    /// The report on the failure.
    pub fn to_text(&self) -> (r: String)
        ensures
            r@ == cmd_text(self@),
    {
        let argv: Vec<String> = Vec::new();
        let e = ProcError {
            argv,
            exit_code: self.exit_code,
            stdout: self.stdout.clone(),
            stderr: self.stderr.clone(),
        };
        assert(texts(argv@) =~= Seq::empty());
        e.report_as(self.command.as_str())
    }
}

pub open spec fn cmd_result(r: Result<(), CmdError>) -> Result<(), CmdFailed> {
    match r {
        Ok(()) => Ok(()),
        Err(e) => Err(e@),
    }
}

pub open spec fn cmd_output(r: Result<String, CmdError>) -> Result<Seq<char>, CmdFailed> {
    match r {
        Ok(s) => Ok(s@),
        Err(e) => Err(e@),
    }
}

pub open spec fn unit_result(r: Result<(), String>) -> Result<(), Seq<char>> {
    match r {
        Ok(()) => Ok(()),
        Err(e) => Err(e@),
    }
}

pub open spec fn text_result(r: Result<String, String>) -> Result<Seq<char>, Seq<char>> {
    match r {
        Ok(s) => Ok(s@),
        Err(e) => Err(e@),
    }
}

pub open spec fn texts_result(r: Result<Vec<String>, String>) -> Result<Seq<Seq<char>>, Seq<char>> {
    match r {
        Ok(v) => Ok(texts(v@)),
        Err(e) => Err(e@),
    }
}

/// The text under a key as a failure.
pub open spec fn failure(errors: Seq<(Seq<char>, Seq<char>)>, call: Seq<char>) -> Result<(), Seq<char>> {
    match lookup(errors, call) {
        Some(e) => Err(e),
        None => Ok(()),
    }
}

pub fn fail_as_scripted(errors: &Vec<(String, String)>, call: &str) -> (r: Result<(), String>)
    ensures
        unit_result(r) == failure(text_table(errors@), call@),
{
    match lookup_text(errors, call) {
        Some(e) => Err(e),
        None => Ok(()),
    }
}

/// Whether an association list has a key.
pub open spec fn has_key(t: Seq<(Seq<char>, Seq<char>)>, key: Seq<char>) -> bool {
    lookup(t, key) is Some
}

/// An association list of lists of texts.
pub open spec fn list_table(t: Seq<(String, Vec<String>)>) -> Seq<(Seq<char>, Seq<Seq<char>>)> {
    Seq::new(t.len(), |i: int| (t[i].0@, texts(t[i].1@)))
}

/// The list of texts under a key.
pub fn lookup_list(table: &Vec<(String, Vec<String>)>, key: &str) -> (r: Option<Vec<String>>)
    ensures
        match r {
            Some(v) => lookup(list_table(table@), key@) == Some(texts(v@)),
            None => lookup(list_table(table@), key@) is None,
        },
{
    let ghost t = list_table(table@);
    let mut i: usize = 0;
    assert(t.skip(0) =~= t);
    while i < table.len()
        invariant
            i <= table@.len(),
            t == list_table(table@),
            lookup(t.skip(i as int), key@) == lookup(t, key@),
        decreases table.len() - i,
    {
        if same(table[i].0.as_str(), key) {
            return Some(copy_strings(&table[i].1));
        }
        assert(t.skip(i as int).skip(1) =~= t.skip(i + 1));
        i += 1;
    }
    None
}

/// What a scripted command does that is written down so: it fails where a failure
/// is set up, and else prints what is set up.
pub open spec fn scripted_output(
    errors: Seq<(Seq<char>, Seq<char>)>,
    outputs: Seq<(Seq<char>, Seq<char>)>,
    call: Seq<char>,
) -> Result<Seq<char>, CmdFailed> {
    match lookup(errors, call) {
        Some(e) => Err(CmdFailed { command: call, exit_code: Some(1), stdout: Seq::empty(), stderr: e }),
        None => Ok(
            match lookup(outputs, call) {
                Some(out) => out,
                None => Seq::empty(),
            },
        ),
    }
}

pub fn output_as_scripted(errors: &Vec<(String, String)>, outputs: &Vec<(String, String)>, call: &str) -> (r: Result<
    String,
    CmdError,
>)
    ensures
        cmd_output(r) == scripted_output(text_table(errors@), text_table(outputs@), call@),
{
    let none = String::new();
    assert(none@ =~= Seq::empty());
    match lookup_text(errors, call) {
        Some(e) => Err(CmdError { command: call.to_owned(), exit_code: Some(1), stdout: none, stderr: e }),
        None => match lookup_text(outputs, call) {
            Some(out) => Ok(out),
            None => Ok(none),
        },
    }
}

/// What a setting lists: a list as it is, nothing where it is empty, and else one text.
pub proof fn what_a_setting_lists(m: Seq<(Seq<char>, Val)>, key: Seq<char>, default: Seq<Val>, items: Seq<Val>, text: Seq<char>)
    ensures
        get(m, key) is None ==> option_items(m, key, default) == default,
        get(m, key) == Some(Val::Null) ==> option_items(m, key, default) == Seq::<Val>::empty(),
        get(m, key) == Some(Val::Array(items)) ==> option_items(m, key, default) == items,
        get(m, key) == Some(Val::Text(text)) ==> option_items(m, key, default) == seq![Val::Text(text)],
{
}

/// Only a mapping has something under a key; a list and a text without the key have
/// nothing, and with it cannot be asked.
pub proof fn what_is_under_a_key(m: Seq<(Seq<char>, Val)>, items: Seq<Val>, text: Seq<char>, key: Seq<char>)
    ensures
        option_in(Val::Object(m), key) == Ok::<Option<Val>, Seq<char>>(get(m, key)),
        member_in(Val::Object(m), key) == Ok::<Option<Val>, Seq<char>>(get(m, key)),
        option_in(Val::Array(items), key) is Err <==> items.contains(Val::Text(key)),
        option_in(Val::Text(text), key) is Err <==> holds(text, key),
        option_in(Val::Null, key) is Err,
        member_in(Val::Array(items), key) is Err,
        member_in(Val::Text(text), key) is Err,
{
}

} // verus!
