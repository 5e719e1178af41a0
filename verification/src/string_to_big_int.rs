use vstd::prelude::*;
use crate::big_int::JsBigInt;
use crate::text::{spec_all_digits, spec_radix_value, parse_radix, copy_range, JsString};
use crate::to_number::{spec_trim_left, spec_trim_right};

verus! {

/// The specification's StringToBigInt: the same trimming and radix-prefix
/// rules as the numeric-literal grammar, but no decimal point, no exponent
/// and no infinities. `None` covers both a malformed string (the operation's
/// "undefined" outcome) and a magnitude beyond the model's range.
pub open spec fn spec_string_to_big_int(s: Seq<u16>) -> Option<JsBigInt> {
    let lo = spec_trim_left(s, 0);
    if lo == s.len() {
        Some(JsBigInt { neg: false, mag: 0u128 })
    } else {
        let hi = spec_trim_right(s, s.len());
        spec_big_int_trimmed(s.subrange(lo as int, hi as int))
    }
}

/// A trimmed, non-empty StringIntegerLiteral body.
pub open spec fn spec_big_int_trimmed(t: Seq<u16>) -> Option<JsBigInt> {
    if t.len() >= 2 && t[0] == 0x30 && (t[1] == 0x78 || t[1] == 0x58) {
        spec_big_int_radix(t.subrange(2, t.len() as int), 16)
    } else if t.len() >= 2 && t[0] == 0x30 && (t[1] == 0x6F || t[1] == 0x4F) {
        spec_big_int_radix(t.subrange(2, t.len() as int), 8)
    } else if t.len() >= 2 && t[0] == 0x30 && (t[1] == 0x62 || t[1] == 0x42) {
        spec_big_int_radix(t.subrange(2, t.len() as int), 2)
    } else {
        let neg = t[0] == 0x2D;
        let has_sign = t.len() >= 1 && (t[0] == 0x2B || t[0] == 0x2D);
        let body = if has_sign {
            t.subrange(1, t.len() as int)
        } else {
            t
        };
        match spec_big_int_radix(body, 10) {
            Some(b) => Some(JsBigInt { neg: neg && b.mag != 0, mag: b.mag }),
            None => None,
        }
    }
}

/// An unsigned digit string in the given radix, as a big integer.
pub open spec fn spec_big_int_radix(digits: Seq<u16>, radix: u16) -> Option<JsBigInt> {
    if digits.len() == 0 || !spec_all_digits(digits, radix) {
        None
    } else if spec_radix_value(digits, radix) > u128::MAX {
        None
    } else {
        Some(JsBigInt { neg: false, mag: spec_radix_value(digits, radix) as u128 })
    }
}

fn big_int_radix(t: &JsString, from: usize, to: usize, radix: u16) -> (r: Option<JsBigInt>)
    requires
        from <= to <= t@.len(),
        2 <= radix <= 36,
    ensures
        r == spec_big_int_radix(t@.subrange(from as int, to as int), radix),
{
    if from == to {
        return None;
    }
    match parse_radix(t, from, to, radix) {
        Some(v) => Some(JsBigInt { neg: false, mag: v }),
        None => None,
    }
}

/// Executable StringToBigInt.
pub fn string_to_big_int(s: &JsString) -> (r: Option<JsBigInt>)
    ensures
        r == spec_string_to_big_int(s@),
{
    let lo = crate::to_number::trim_left_from(s, 0);
    if lo == s.len() {
        return Some(JsBigInt { neg: false, mag: 0 });
    }
    let hi = crate::to_number::trim_right_from(s, s.len());
    proof {
        crate::to_number::lemma_trim_right_stops(s@, s@.len(), lo as nat);
    }
    let t = copy_range(s, lo, hi);
    if t.len() >= 2 && t[0] == 0x30 && (t[1] == 0x78 || t[1] == 0x58) {
        return big_int_radix(&t, 2, t.len(), 16);
    }
    if t.len() >= 2 && t[0] == 0x30 && (t[1] == 0x6F || t[1] == 0x4F) {
        return big_int_radix(&t, 2, t.len(), 8);
    }
    if t.len() >= 2 && t[0] == 0x30 && (t[1] == 0x62 || t[1] == 0x42) {
        return big_int_radix(&t, 2, t.len(), 2);
    }
    let neg = t[0] == 0x2D;
    let has_sign = t[0] == 0x2B || t[0] == 0x2D;
    let start: usize = if has_sign {
        1
    } else {
        0
    };
    proof {
        if !has_sign {
            assert(t@.subrange(0, t@.len() as int) =~= t@);
        }
    }
    match big_int_radix(&t, start, t.len(), 10) {
        Some(b) => Some(JsBigInt { neg: neg && b.mag != 0, mag: b.mag }),
        None => None,
    }
}

} // verus!
