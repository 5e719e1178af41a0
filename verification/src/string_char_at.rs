use vstd::prelude::*;
use crate::text::JsString;

verus! {

/// The specification's string indexing by code unit: `None` out of range
/// rather than an index error.
pub open spec fn spec_string_char_at(s: Seq<u16>, i: int) -> Option<u16> {
    if 0 <= i < s.len() {
        Some(s[i])
    } else {
        None
    }
}

pub fn string_char_at(s: &JsString, i: usize) -> (r: Option<u16>)
    ensures
        r == spec_string_char_at(s@, i as int),
{
    if i < s.len() {
        Some(s[i])
    } else {
        None
    }
}

} // verus!
