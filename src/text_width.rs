//! Display widths of text, in terminal columns.
use vstd::prelude::*;

verus! {

/// The display width of a string, as Unicode's East Asian Width rules give it.
pub uninterp spec fn str_columns(s: Seq<char>) -> usize;

/// The display width of one character; `None` for a control character.
pub uninterp spec fn char_columns(c: char) -> Option<usize>;

/// Relies on `unicode_width::UnicodeWidthStr::width`, which measures a
/// string from its characters alone.
#[verifier::external_body]
pub(crate) fn str_width(s: &str) -> (r: usize)
    ensures
        r == str_columns(s@),
{
    unicode_width::UnicodeWidthStr::width(s)
}

/// Relies on `unicode_width::UnicodeWidthChar::width`: `None` for the
/// control characters below U+0020 and from U+007F to U+009F, one column
/// for the printable ASCII characters.
#[verifier::external_body]
pub(crate) fn char_width(c: char) -> (r: Option<usize>)
    ensures
        r == char_columns(c),
        0x20 <= (c as u32) < 0x7f ==> r == Some(1usize),
        (c as u32) < 0x20 || (0x7f <= (c as u32) < 0xa0) ==> r is None,
{
    unicode_width::UnicodeWidthChar::width(c)
}

} // verus!
