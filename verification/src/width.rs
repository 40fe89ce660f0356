use vstd::prelude::*;
use unicode_width::{UnicodeWidthChar, UnicodeWidthStr};

verus! {

/// What `unicode_width::UnicodeWidthChar::width` gives for a character.
pub uninterp spec fn unicode_char_width(c: char) -> Option<usize>;

/// What `unicode_width::UnicodeWidthStr::width` gives for a string.
pub uninterp spec fn unicode_str_width(s: Seq<char>) -> usize;

/// Calls `unicode_width::UnicodeWidthChar::width`. Claimed: the result is
/// the named width of `c`; printable ASCII (U+0020..U+007E) is one column
/// wide and the control characters (below U+0020, and U+007F..U+009F) have
/// no width (`None`), as the crate's source shows. The widths of other
/// characters come from Unicode tables and are left unstated.
#[verifier::external_body]
pub(crate) fn char_width(c: char) -> (w: Option<usize>)
    ensures
        w == unicode_char_width(c),
        0x20 <= (c as u32) < 0x7F ==> w == Some(1usize),
        (c as u32) < 0x20 || (0x7F <= (c as u32) < 0xA0) ==> w is None,
{
    UnicodeWidthChar::width(c)
}

/// Calls `unicode_width::UnicodeWidthStr::width`. Claimed: the result is
/// the named width of the string, and a string of printable ASCII
/// characters is as wide as it is long (the crate's documentation: outside
/// the listed ligatures, a string is as wide as the sum of its characters).
/// Other widths are left unstated.
#[verifier::external_body]
pub(crate) fn str_width(s: &str) -> (w: usize)
    ensures
        w == unicode_str_width(s@),
        (forall|i: int| 0 <= i < s@.len() ==> 0x20 <= (#[trigger] s@[i] as u32) < 0x7F) ==> w
            == s@.len(),
{
    UnicodeWidthStr::width(s)
}

} // verus!
