use vstd::prelude::*;
use crate::text::JsString;
use crate::string_index_of::{match_at, spec_match_at};

verus! {

/// The greatest offset at or below `i` where the search string occurs, or
/// -1.
pub open spec fn spec_rfind_from(s: Seq<u16>, pat: Seq<u16>, i: int) -> int
    decreases i + 1,
        when 0 <= i
{
    if i + pat.len() <= s.len() && spec_match_at(s, pat, i) {
        i
    } else if i == 0 {
        -1
    } else {
        spec_rfind_from(s, pat, i - 1)
    }
}

fn rfind_from(s: &JsString, pat: &JsString, i: usize) -> (r: Option<usize>)
    requires
        i <= s@.len(),
    ensures
        match r {
            Some(k) => spec_rfind_from(s@, pat@, i as int) == k,
            None => spec_rfind_from(s@, pat@, i as int) == -1,
        },
    decreases i,
{
    if match_at(s, pat, i) {
        return Some(i);
    }
    if i == 0 {
        return None;
    }
    rfind_from(s, pat, i - 1)
}

/// The specification's String.prototype.lastIndexOf over code units: the
/// greatest matching offset at or below `from` (clamped to the string's
/// end), `None` where there is none.
pub fn string_last_index_of(s: &JsString, pat: &JsString, from: usize) -> (r: Option<usize>)
    ensures
        match r {
            Some(k) => spec_rfind_from(
                s@,
                pat@,
                if from <= s@.len() {
                    from as int
                } else {
                    s@.len() as int
                },
            ) == k,
            None => spec_rfind_from(
                s@,
                pat@,
                if from <= s@.len() {
                    from as int
                } else {
                    s@.len() as int
                },
            ) == -1,
        },
{
    let start: usize = if from <= s.len() {
        from
    } else {
        s.len()
    };
    rfind_from(s, pat, start)
}

} // verus!
