//! Operations on string slices.

use vstd::prelude::*;

verus! {

/// Whether two string slices hold the same characters.
pub(crate) fn same_text(a: &str, b: &str) -> (same: bool)
    ensures
        same == (a@ == b@),
{
    a.to_owned() == b.to_owned()
}

/// What follows `prefix` in `text`, or `None` if `text` does not start with
/// `prefix`.
pub(crate) fn strip_prefix<'a>(text: &'a str, prefix: &str) -> (rest: Option<&'a str>)
    ensures
        rest is Some <==> prefix@.is_prefix_of(text@),
        rest matches Some(tail) ==> text@ == prefix@ + tail@,
{
    let text_len: usize = text.unicode_len();
    let prefix_len: usize = prefix.unicode_len();
    if text_len < prefix_len {
        return None;
    }
    if same_text(text.substring_char(0, prefix_len), prefix) {
        let tail = text.substring_char(prefix_len, text_len);
        assert(text@ =~= prefix@ + tail@);
        Some(tail)
    } else {
        None
    }
}

} // verus!
