//! Searching a text for a regular expression.

use vstd::prelude::*;

verus! {

/// The message with which a regular expression is refused, if it is.
pub uninterp spec fn pattern_error(pattern: Seq<char>) -> Option<Seq<char>>;

/// Whether a regular expression matches somewhere in a text.
pub uninterp spec fn pattern_found(pattern: Seq<char>, text: Seq<char>) -> bool;

/// `regex::Regex::new`: the message of its error, if the expression is refused.
/// The claim is that this depends on the expression alone.
#[verifier::external_body]
pub(crate) fn check(pattern: &str) -> (r: Option<String>)
    ensures
        match r {
            Some(e) => pattern_error(pattern@) == Some(e@),
            None => pattern_error(pattern@) is None,
        },
{
    regex::Regex::new(pattern).err().map(|e| e.to_string())
}

/// A text with something and a colon on its first line, in that order.
pub open spec fn network_form(s: Seq<char>) -> bool {
    exists|i: int| 1 <= i < s.len() && #[trigger] s[i] == ':' && forall|j: int| 0 <= j < i ==> s[j] != '\n'
}

/// The name of a disk, with the number of a partition or without: `sda`, `xvdb1`.
pub open spec fn disk_form(s: Seq<char>) -> bool {
    let t = if s.len() > 0 && s[0] == 'x' {
        s.skip(1)
    } else {
        s
    };
    &&& t.len() >= 3
    &&& (t[0] == 's' || t[0] == 'h' || t[0] == 'v')
    &&& t[1] == 'd'
    &&& 'a' <= t[2] <= 'z'
    &&& forall|i: int| 3 <= i < t.len() ==> '0' <= #[trigger] t[i] <= '9'
}

/// The name of a drive for discs: `sr0`.
pub open spec fn drive_form(s: Seq<char>) -> bool {
    &&& s.len() >= 3
    &&& s[0] == 's'
    &&& s[1] == 'r'
    &&& forall|i: int| 2 <= i < s.len() ==> '0' <= #[trigger] s[i] <= '9'
}

/// The name of a disk or of a drive, with one line feed behind it or without.
pub open spec fn device_form(s: Seq<char>) -> bool {
    let t = if s.len() > 0 && s.last() == '\n' {
        s.drop_last()
    } else {
        s
    };
    disk_form(t) || drive_form(t)
}

/// `regex::Regex::is_match`: whether the expression matches somewhere in the text.
/// The claim is that this depends on the two alone, that an expression that is
/// refused matches nothing, and what the two expressions for devices match: a
/// point is any character but a line feed, and both anchors are those of the whole
/// text.
#[verifier::external_body]
pub(crate) fn found(pattern: &str, text: &str) -> (r: bool)
    ensures
        r == pattern_found(pattern@, text@),
        pattern_error(pattern@) is Some ==> !r,
        pattern@ == "^.+:.*"@ ==> r == network_form(text@),
        pattern@ == "^([x]{0,1}[shv]d[a-z][0-9]*|sr[0-9]+)\\n?$"@ ==> r == device_form(text@),
{
    regex::Regex::new(pattern).is_ok_and(|re| re.is_match(text))
}

}
