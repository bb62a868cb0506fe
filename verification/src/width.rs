//! How wide text is drawn in a terminal, as the unicode-width crate
//! measures it.

use vstd::prelude::*;

verus! {

/// The columns the string `s` takes, as `UnicodeWidthStr::width` counts
/// them.
pub uninterp spec fn str_columns(s: Seq<char>) -> usize;

/// The columns the character `c` takes, or none for a control character,
/// as `UnicodeWidthChar::width` counts them.
pub uninterp spec fn char_columns(c: char) -> Option<usize>;

/// Whether `c` is printable ASCII, a space to a tilde.
pub open spec fn printable_ascii(c: char) -> bool {
    ' ' <= c <= '~'
}

/// `UnicodeWidthStr::width`: the width of `s` is named, not spelled out;
/// an empty string is no columns wide (the crate folds over the
/// characters from zero), and printable ASCII takes a column a character.
#[verifier::external_body]
pub(crate) fn str_width(s: &str) -> (w: usize)
    ensures
        w == str_columns(s@),
        s@.len() == 0 ==> w == 0,
        (forall|i: int| 0 <= i < s@.len() ==> printable_ascii(#[trigger] s@[i])) ==> w == s@.len(),
{
    unicode_width::UnicodeWidthStr::width(s)
}

/// `UnicodeWidthChar::width`: the width of `c` is named, not spelled out
/// beyond ASCII: printable ASCII is a column wide, and the control codes
/// below a space have no width.
#[verifier::external_body]
pub(crate) fn char_width(c: char) -> (w: Option<usize>)
    ensures
        w == char_columns(c),
        printable_ascii(c) ==> w == Some(1usize),
        c < ' ' ==> w is None,
{
    unicode_width::UnicodeWidthChar::width(c)
}

} // verus!
