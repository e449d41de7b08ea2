//! Upper and lower case, letters and digits, and what can be shown, as Unicode has
//! them.

use vstd::prelude::*;

verus! {

/// A text in upper case.
pub uninterp spec fn uppercase(s: Seq<char>) -> Seq<char>;

/// A text in lower case.
pub uninterp spec fn lowercase(s: Seq<char>) -> Seq<char>;

/// `str::to_uppercase`: the text in upper case. The claim is that it depends on
/// the text alone; what it is, the Unicode tables say.
#[verifier::external_body]
pub(crate) fn to_upper(s: &str) -> (r: String)
    ensures
        r@ == uppercase(s@),
{
    s.to_uppercase()
}

/// `str::to_lowercase`: the text in lower case. The claim is that it depends on
/// the text alone; what it is, the Unicode tables say.
#[verifier::external_body]
pub(crate) fn to_lower(s: &str) -> (r: String)
    ensures
        r@ == lowercase(s@),
{
    s.to_lowercase()
}

/// Whether a character is a letter or a digit.
pub uninterp spec fn alphanumeric(c: char) -> bool;

/// `char::is_alphanumeric`: whether the character is a letter or a digit. The
/// claim is that it depends on the character alone, and that of ASCII the letters
/// and the decimal digits are meant.
#[verifier::external_body]
pub(crate) fn is_alphanumeric(c: char) -> (r: bool)
    ensures
        r == alphanumeric(c),
        (c as u32) < 0x80 ==> r == (0x30 <= c as u32 <= 0x39 || 0x41 <= c as u32 <= 0x5a || 0x61 <= c as u32 <= 0x7a),
{
    c.is_alphanumeric()
}

/// What `{:?}` gives of a text.
pub uninterp spec fn debugged(s: Seq<char>) -> Seq<char>;

/// `std::fmt::Debug` for `str`: the text in double quotes, with what cannot be shown
/// as it stands escaped. Which characters those are goes by the Unicode tables, so
/// that the result is only named here.
#[verifier::external_body]
pub(crate) fn debug_of(s: &str) -> (r: String)
    ensures
        r@ == debugged(s@),
{
    format!("{s:?}")
}

}
