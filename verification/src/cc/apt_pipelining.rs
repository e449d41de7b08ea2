//! How many requests apt may have open on one connection.

use vstd::prelude::*;

use crate::machine::Level;
use crate::show::{py_str, show};
use crate::space::{fold, fold_of, trim, trim_of, Class};
use crate::text::{cat2, cat3, cat4, same};
use crate::value::{Node, Val};

verus! {

/// The file that says so.
pub const DEFAULT_FILE: &'static str = "/etc/apt/apt.conf.d/90cloud-init-pipelining";

/// What is done with the configured value.
#[derive(Debug, Clone, PartialEq, Eq)]
pub enum Action {
    /// [`DEFAULT_FILE`] is written with this number, one of `0` to `5`.
    Write(String),
    /// Apt is left as it is.
    Leave,
    /// The value is none that is known. It is warned of as it was written, and
    /// nothing is done.
    Invalid(String),
}

pub enum ActionSpec {
    Write(Seq<char>),
    Leave,
    Invalid(Seq<char>),
}

impl View for Action {
    type V = ActionSpec;

    open spec fn view(&self) -> ActionSpec {
        match self {
            Action::Write(s) => ActionSpec::Write(s@),
            Action::Leave => ActionSpec::Leave,
            Action::Invalid(s) => ActionSpec::Invalid(s@),
        }
    }
}

/// Whether a text is one of the numbers that can be written.
pub open spec fn is_depth(s: Seq<char>) -> bool {
    s.len() == 1 && '0' <= s[0] <= '5'
}

/// What is done with a value as it was written: letter case and white space around
/// it do not matter.
pub open spec fn action_for(raw: Seq<char>) -> ActionSpec {
    let setting = trim(Class::TextSpace, fold(raw));
    if setting == "false"@ {
        ActionSpec::Write("0"@)
    } else if setting == "none"@ || setting == "unchanged"@ || setting == "os"@ {
        ActionSpec::Leave
    } else if is_depth(setting) {
        ActionSpec::Write(setting)
    } else {
        ActionSpec::Invalid(raw)
    }
}

/// What is done with the configured value, if there is one.
pub open spec fn decided(configured: Option<Val>) -> ActionSpec {
    match configured {
        Some(v) => action_for(show(v)),
        None => ActionSpec::Leave,
    }
}

pub open spec fn value_of(configured: Option<&Node>) -> Option<Val> {
    match configured {
        Some(v) => Some(v@),
        None => None,
    }
}

fn is_one_of_six(s: &str) -> (r: bool)
    ensures
        r == is_depth(s@),
{
    proof {
        reveal_strlit("0");
        reveal_strlit("1");
        reveal_strlit("2");
        reveal_strlit("3");
        reveal_strlit("4");
        reveal_strlit("5");
        assert(s@.len() == 1 ==> s@ =~= seq![s@[0]]);
        assert("0"@ =~= seq!['0']);
        assert("1"@ =~= seq!['1']);
        assert("2"@ =~= seq!['2']);
        assert("3"@ =~= seq!['3']);
        assert("4"@ =~= seq!['4']);
        assert("5"@ =~= seq!['5']);
    }
    same(s, "0") || same(s, "1") || same(s, "2") || same(s, "3") || same(s, "4") || same(s, "5")
}

/// Decides what is done with the configured value.
pub fn decide(configured: Option<&Node>) -> (r: Action)
    ensures
        r@ == decided(value_of(configured)),
{
    let raw = match configured {
        Some(v) => py_str(v),
        None => return Action::Leave,
    };
    let setting = trim_of(Class::TextSpace, fold_of(raw.as_str()).as_str());
    if same(setting.as_str(), "false") {
        return Action::Write("0".to_owned());
    }
    if same(setting.as_str(), "none") || same(setting.as_str(), "unchanged") || same(setting.as_str(), "os") {
        return Action::Leave;
    }
    if is_one_of_six(setting.as_str()) {
        return Action::Write(setting);
    }
    Action::Invalid(raw)
}

/// The file for a number.
pub open spec fn rendered(setting: Seq<char>) -> Seq<char> {
    "//Written by cloud-init per 'apt_pipelining'\nAcquire::http::Pipeline-Depth \""@ + setting + "\";\n"@
}

/// The file for a number.
pub fn render(setting: &str) -> (r: String)
    ensures
        r@ == rendered(setting@),
{
    cat3("//Written by cloud-init per 'apt_pipelining'\nAcquire::http::Pipeline-Depth \"", setting, "\";\n")
}

/// The line of the log once what was decided is done: at which level, and its text.
pub open spec fn line_for(action: ActionSpec) -> Option<(Level, Seq<char>)> {
    match action {
        ActionSpec::Write(setting) => Some(
            (Level::Debug, "Wrote "@ + DEFAULT_FILE@ + " with apt pipeline depth setting "@ + setting),
        ),
        ActionSpec::Leave => None,
        ActionSpec::Invalid(shown) => Some((Level::Warning, "Invalid option for apt_pipelining: "@ + shown)),
    }
}

pub open spec fn line_of(line: Option<(Level, String)>) -> Option<(Level, Seq<char>)> {
    match line {
        Some((level, text)) => Some((level, text@)),
        None => None,
    }
}

/// The line of the log once what was decided is done.
pub fn told(action: &Action) -> (r: Option<(Level, String)>)
    ensures
        line_of(r) == line_for(action@),
{
    match action {
        Action::Write(setting) => Some(
            (Level::Debug, cat4("Wrote ", DEFAULT_FILE, " with apt pipeline depth setting ", setting.as_str())),
        ),
        Action::Leave => None,
        Action::Invalid(shown) => Some(
            (Level::Warning, cat2("Invalid option for apt_pipelining: ", shown.as_str())),
        ),
    }
}

// ---------------------------------------------------------------------------
// Laws

/// What is written is always one of the six numbers.
pub proof fn only_known_numbers_are_written(configured: Option<Val>)
    ensures
        decided(configured) matches ActionSpec::Write(s) ==> is_depth(s),
{
    reveal_strlit("0");
}

/// Every value that is configured leaves a line, but for those that leave apt as it
/// is; only one that is not known is a warning.
pub proof fn an_unknown_value_is_warned_of(configured: Option<Val>)
    ensures
        line_for(decided(configured)) is None <==> decided(configured) is Leave,
        line_for(decided(configured)) matches Some((level, text)) ==> (level is Warning <==> decided(configured) is Invalid),
{
}

/// What is done with each value that is known: no pipelining is the depth zero, a depth up
/// to five is itself, and three words leave apt as it is.
pub proof fn what_is_done_with_a_value(raw: Seq<char>)
    ensures
        ({
            let s = trim(Class::TextSpace, fold(raw));
            &&& s == "false"@ ==> decided(Some(Val::Text(raw))) == ActionSpec::Write("0"@)
            &&& s == "none"@ || s == "unchanged"@ || s == "os"@ ==> decided(Some(Val::Text(raw))) is Leave
            &&& s.len() == 1 && '0' <= s[0] <= '5' ==> decided(Some(Val::Text(raw))) == ActionSpec::Write(s)
            &&& s.len() == 1 && !('0' <= s[0] <= '5') ==> decided(Some(Val::Text(raw))) == ActionSpec::Invalid(raw)
        }),
        decided(None) is Leave,
{
    reveal_strlit("false");
    reveal_strlit("none");
    reveal_strlit("unchanged");
    reveal_strlit("os");
    assert("false"@.len() == 5 && "none"@.len() == 4 && "unchanged"@.len() == 9 && "os"@.len() == 2);
}

/// The file says who wrote it, and sets the depth.
pub proof fn what_the_file_says(setting: Seq<char>)
    ensures
        rendered(setting) == "//Written by cloud-init per 'apt_pipelining'"@ + "\n"@ + "Acquire::http::Pipeline-Depth \""@
            + setting + "\";"@ + "\n"@,
        DEFAULT_FILE@ == "/etc/apt/apt.conf.d/90cloud-init-pipelining"@,
{
    reveal_strlit("//Written by cloud-init per 'apt_pipelining'\nAcquire::http::Pipeline-Depth \"");
    reveal_strlit("//Written by cloud-init per 'apt_pipelining'");
    reveal_strlit("\n");
    reveal_strlit("Acquire::http::Pipeline-Depth \"");
    reveal_strlit("\";\n");
    reveal_strlit("\";");
    assert(rendered(setting) =~= "//Written by cloud-init per 'apt_pipelining'"@ + "\n"@ + "Acquire::http::Pipeline-Depth \""@
        + setting + "\";"@ + "\n"@);
}

}
