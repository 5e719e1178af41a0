use vstd::prelude::*;

verus! {

/// An ECMAScript string: a sequence of UTF-16 code units, indexed by code
/// unit as the language specification prescribes.
pub type JsString = Vec<u16>;

/// White space and line terminators that `ToNumber` and `StringToBigInt`
/// trim from a string operand: TAB, LF, VT, FF, CR, SP, NBSP, LS, PS, ZWNBSP.
pub open spec fn spec_is_trimmable(c: u16) -> bool {
    c == 0x09 || c == 0x0A || c == 0x0B || c == 0x0C || c == 0x0D || c == 0x20 || c == 0xA0
        || c == 0x2028 || c == 0x2029 || c == 0xFEFF
}

pub fn is_trimmable(c: u16) -> (r: bool)
    ensures
        r == spec_is_trimmable(c),
{
    c == 0x09 || c == 0x0A || c == 0x0B || c == 0x0C || c == 0x0D || c == 0x20 || c == 0xA0
        || c == 0x2028 || c == 0x2029 || c == 0xFEFF
}

/// The numeric value of a code unit read as a digit in the given radix,
/// or `36` where it is no such digit (every radix in use is below 36).
pub open spec fn spec_digit_value(c: u16, radix: u16) -> u16 {
    let v: u16 = if 0x30 <= c && c <= 0x39 {
        (c - 0x30) as u16
    } else if 0x41 <= c && c <= 0x5A {
        (c - 0x41 + 10) as u16
    } else if 0x61 <= c && c <= 0x7A {
        (c - 0x61 + 10) as u16
    } else {
        36u16
    };
    if v < radix {
        v
    } else {
        36u16
    }
}

pub open spec fn spec_is_digit(c: u16, radix: u16) -> bool {
    spec_digit_value(c, radix) < 36
}

pub fn digit_value(c: u16, radix: u16) -> (r: u16)
    requires
        radix <= 36,
    ensures
        r == spec_digit_value(c, radix),
{
    let v: u16 = if 0x30 <= c && c <= 0x39 {
        c - 0x30
    } else if 0x41 <= c && c <= 0x5A {
        c - 0x41 + 10
    } else if 0x61 <= c && c <= 0x7A {
        c - 0x61 + 10
    } else {
        36
    };
    if v < radix {
        v
    } else {
        36
    }
}

/// Every code unit of `s` is a digit in the given radix.
pub open spec fn spec_all_digits(s: Seq<u16>, radix: u16) -> bool {
    forall|i: int| 0 <= i < s.len() ==> spec_is_digit(#[trigger] s[i], radix)
}

/// The value of a digit string read in the given radix (Horner's rule).
pub open spec fn spec_radix_value(s: Seq<u16>, radix: u16) -> nat
    decreases s.len(),
{
    if s.len() == 0 {
        0
    } else {
        spec_radix_value(s.drop_last(), radix) * (radix as nat) + (
        spec_digit_value(s.last(), radix) as nat)
    }
}

/// Reads a whole digit string in the given radix. Returns `None` where some
/// code unit is not a digit or the value does not fit `u128`.
pub fn parse_radix(s: &JsString, from: usize, to: usize, radix: u16) -> (r: Option<u128>)
    requires
        from <= to <= s@.len(),
        2 <= radix <= 36,
    ensures
        match r {
            Some(v) => spec_all_digits(s@.subrange(from as int, to as int), radix) && v
                == spec_radix_value(s@.subrange(from as int, to as int), radix),
            None => !spec_all_digits(s@.subrange(from as int, to as int), radix)
                || spec_radix_value(s@.subrange(from as int, to as int), radix) > u128::MAX,
        },
{
    let ghost whole = s@.subrange(from as int, to as int);
    let mut acc: u128 = 0;
    let mut too_big: bool = false;
    let mut i: usize = from;
    while i < to
        invariant
            from <= i <= to <= s@.len(),
            2 <= radix <= 36,
            whole == s@.subrange(from as int, to as int),
            spec_all_digits(s@.subrange(from as int, i as int), radix),
            !too_big ==> acc == spec_radix_value(s@.subrange(from as int, i as int), radix),
            too_big ==> spec_radix_value(s@.subrange(from as int, i as int), radix) > u128::MAX,
        decreases to - i,
    {
        let ghost pre = s@.subrange(from as int, i as int);
        let d = digit_value(s[i], radix);
        if d >= 36 {
            proof {
                assert(s@.subrange(from as int, to as int)[i - from] == s@[i as int]);
                assert(!spec_is_digit(whole[i - from], radix));
            }
            return None;
        }
        proof {
            let post = s@.subrange(from as int, i + 1);
            assert(post.drop_last() =~= pre);
            assert(post.last() == s@[i as int]);
            assert(spec_radix_value(post, radix) == spec_radix_value(pre, radix) * (radix as nat)
                + (spec_digit_value(s@[i as int], radix) as nat));
            assert forall|k: int| 0 <= k < post.len() implies spec_is_digit(
                #[trigger] post[k],
                radix,
            ) by {
                if k < pre.len() {
                    assert(post[k] == pre[k]);
                }
            }
        }
        if too_big {
            proof {
                let post = s@.subrange(from as int, i + 1);
                assert(spec_radix_value(pre, radix) * (radix as nat) >= spec_radix_value(
                    pre,
                    radix,
                ) * 2) by (nonlinear_arith)
                    requires
                        radix >= 2,
                        spec_radix_value(pre, radix) >= 0,
                ;
                assert(spec_radix_value(post, radix) > u128::MAX);
            }
        } else {
            // The next accumulator value is acc * radix + d; test against the
            // quotient first so the multiplication itself cannot overflow.
            let limit: u128 = u128::MAX / (radix as u128);
            if acc > limit {
                too_big = true;
                proof {
                    let post = s@.subrange(from as int, i + 1);
                    assert(acc * (radix as u128) > u128::MAX) by (nonlinear_arith)
                        requires
                            acc > u128::MAX / (radix as u128),
                            2 <= radix <= 36,
                    ;
                    assert(spec_radix_value(post, radix) > u128::MAX);
                }
            } else {
                proof {
                    vstd::arithmetic::div_mod::lemma_fundamental_div_mod(
                        u128::MAX as int,
                        radix as int,
                    );
                    vstd::arithmetic::div_mod::lemma_mod_bound(u128::MAX as int, radix as int);
                    vstd::arithmetic::mul::lemma_mul_inequality(
                        acc as int,
                        (u128::MAX as int) / (radix as int),
                        radix as int,
                    );
                    assert(acc * (radix as u128) <= u128::MAX);
                }
                let prod: u128 = acc * (radix as u128);
                if prod > u128::MAX - (d as u128) {
                    too_big = true;
                    proof {
                        let post = s@.subrange(from as int, i + 1);
                        assert(spec_radix_value(post, radix) > u128::MAX);
                    }
                } else {
                    acc = prod + (d as u128);
                }
            }
        }
        i = i + 1;
    }
    proof {
        assert(s@.subrange(from as int, i as int) =~= whole);
    }
    if too_big {
        None
    } else {
        Some(acc)
    }
}

/// Structural equality of two code-unit strings.
pub fn str_eq(a: &JsString, b: &JsString) -> (r: bool)
    ensures
        r == (a@ == b@),
{
    if a.len() != b.len() {
        assert(a@ != b@) by {
            assert(a@.len() != b@.len());
        }
        return false;
    }
    let n = a.len();
    let mut i: usize = 0;
    while i < n
        invariant
            n == a@.len() == b@.len(),
            0 <= i <= n,
            forall|k: int| 0 <= k < i ==> a@[k] == b@[k],
        decreases n - i,
    {
        if a[i] != b[i] {
            return false;
        }
        i = i + 1;
    }
    proof {
        assert(a@ =~= b@);
    }
    true
}

/// A fresh copy of a window of a code-unit string.
pub fn copy_range(a: &JsString, from: usize, to: usize) -> (r: JsString)
    requires
        from <= to <= a@.len(),
    ensures
        r@ == a@.subrange(from as int, to as int),
{
    let mut out: JsString = Vec::new();
    let mut i: usize = from;
    while i < to
        invariant
            from <= i <= to <= a@.len(),
            out@ =~= a@.subrange(from as int, i as int),
        decreases to - i,
    {
        out.push(a[i]);
        i = i + 1;
    }
    proof {
        assert(out@ =~= a@.subrange(from as int, to as int));
    }
    out
}

/// The concatenation of two code-unit strings.
pub fn str_concat(a: &JsString, b: &JsString) -> (r: JsString)
    ensures
        r@ == a@ + b@,
{
    let mut out = str_copy(a);
    let n = b.len();
    let mut i: usize = 0;
    while i < n
        invariant
            n == b@.len(),
            0 <= i <= n,
            out@ =~= a@ + b@.subrange(0, i as int),
        decreases n - i,
    {
        out.push(b[i]);
        i = i + 1;
    }
    proof {
        assert(out@ =~= a@ + b@);
    }
    out
}

/// A fresh copy of a code-unit string.
pub fn str_copy(a: &JsString) -> (r: JsString)
    ensures
        r@ == a@,
{
    let r = copy_range(a, 0, a.len());
    proof {
        assert(a@.subrange(0, a@.len() as int) =~= a@);
    }
    r
}

} // verus!
