use vstd::prelude::*;
use crate::text::JsString;

verus! {

/// The search string occurs in `s` at code-unit offset `i`.
pub open spec fn spec_match_at(s: Seq<u16>, pat: Seq<u16>, i: int) -> bool {
    0 <= i && i + pat.len() <= s.len() && s.subrange(i, i + pat.len()) == pat
}

/// The least offset at or after `i` where the search string occurs, or -1.
pub open spec fn spec_find_from(s: Seq<u16>, pat: Seq<u16>, i: int) -> int
    decreases s.len() - i,
        when 0 <= i <= s.len()
{
    if i + pat.len() > s.len() {
        -1
    } else if spec_match_at(s, pat, i) {
        i
    } else if i == s.len() {
        -1
    } else {
        spec_find_from(s, pat, i + 1)
    }
}

#[verifier::loop_isolation(false)]
pub fn match_at(s: &JsString, pat: &JsString, i: usize) -> (r: bool)
    requires
        i <= s@.len(),
    ensures
        r == spec_match_at(s@, pat@, i as int),
{
    if pat.len() > s.len() - i {
        return false;
    }
    let m = pat.len();
    let mut j: usize = 0;
    while j < m
        invariant
            i + m <= s@.len(),
            m == pat@.len(),
            0 <= j <= m,
            forall|k: int| 0 <= k < j ==> s@[i + k] == pat@[k],
        decreases m - j,
    {
        if s[i + j] != pat[j] {
            proof {
                assert(s@.subrange(i as int, i + pat@.len())[j as int] == s@[i + j]);
            }
            return false;
        }
        j = j + 1;
    }
    proof {
        assert(s@.subrange(i as int, i + pat@.len()) =~= pat@);
    }
    true
}

/// The specification's String.prototype.indexOf over code units, searching
/// from `from`: the least matching offset, `None` where there is none.
pub fn string_index_of(s: &JsString, pat: &JsString, from: usize) -> (r: Option<usize>)
    requires
        from <= s@.len(),
    ensures
        match r {
            Some(k) => spec_find_from(s@, pat@, from as int) == k,
            None => spec_find_from(s@, pat@, from as int) == -1,
        },
    decreases s@.len() - from,
{
    if pat.len() > s.len() - from {
        return None;
    }
    if match_at(s, pat, from) {
        return Some(from);
    }
    if from == s.len() {
        return None;
    }
    string_index_of(s, pat, from + 1)
}

} // verus!
