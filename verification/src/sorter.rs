use vstd::prelude::*;

use crate::entry::Entry;
use crate::text::{cmp_str, lex_le, lex_lt};

verus! {

/// The default order of a directory listing: names ascending, position by
/// position over their scalar values, which on UTF-8 names coincides with
/// byte-wise comparison.
pub fn default_sorter(a: &Entry, b: &Entry) -> (r: core::cmp::Ordering)
    ensures
        (r == core::cmp::Ordering::Equal) == (a.file_name@ == b.file_name@),
        (r == core::cmp::Ordering::Less) == lex_lt(a.file_name@, b.file_name@),
        (r == core::cmp::Ordering::Greater) == !lex_le(a.file_name@, b.file_name@),
{
    cmp_str(a.file_name.as_str(), b.file_name.as_str())
}

} // verus!
