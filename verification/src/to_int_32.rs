use vstd::prelude::*;
use crate::number::{pow10, lemma_pow10_monotone, lemma_pow10_positive, JsNumber};

verus! {

/// The specification's ToInt32 of a number value: NaN and the infinities
/// give 0; a finite value is truncated toward zero, reduced modulo `2^32`
/// into the unsigned range, and values at or above `2^31` are shifted down
/// by `2^32`.
pub open spec fn spec_to_int_32(n: JsNumber) -> int {
    match n {
        JsNumber::Finite { neg, mant, scale } => {
            let t = (mant as nat) / pow10(scale as nat);
            let u = t % 0x1_0000_0000;
            let v: nat = if neg {
                ((0x1_0000_0000 - u) % 0x1_0000_0000) as nat
            } else {
                u
            };
            if v >= 0x8000_0000 {
                v - 0x1_0000_0000
            } else {
                v as int
            }
        },
        _ => 0,
    }
}

/// The canonical number a 32-bit integer converts back to.
pub open spec fn spec_number_of_i32(x: int) -> JsNumber {
    if x < 0 {
        JsNumber::Finite { neg: true, mant: (-x) as u64, scale: 0u32 }
    } else {
        JsNumber::Finite { neg: false, mant: x as u64, scale: 0u32 }
    }
}

proof fn lemma_to_int_32_in_range(n: JsNumber)
    ensures
        -0x8000_0000 <= spec_to_int_32(n) < 0x8000_0000,
{
    match n {
        JsNumber::Finite { neg, mant, scale } => {
            let t = (mant as nat) / pow10(scale as nat);
            vstd::arithmetic::div_mod::lemma_mod_bound(t as int, 0x1_0000_0000);
            let u = t % 0x1_0000_0000;
            if neg {
                vstd::arithmetic::div_mod::lemma_mod_bound(
                    0x1_0000_0000 - (u as int),
                    0x1_0000_0000,
                );
            }
        },
        _ => {},
    }
}

/// ToInt32 is the identity on integers already in signed 32-bit range.
pub proof fn lemma_to_int_32_fixed_point(x: int)
    requires
        -0x8000_0000 <= x < 0x8000_0000,
    ensures
        spec_to_int_32(spec_number_of_i32(x)) == x,
{
    let n = spec_number_of_i32(x);
    if x < 0 {
        let m = (-x) as nat;
        assert(pow10(0) == 1);
        assert(m / 1 == m);
        vstd::arithmetic::div_mod::lemma_small_mod(m, 0x1_0000_0000);
        if m == 0 {
        } else {
            vstd::arithmetic::div_mod::lemma_small_mod(
                (0x1_0000_0000 - m) as nat,
                0x1_0000_0000,
            );
        }
    } else {
        let m = x as nat;
        assert(pow10(0) == 1);
        assert(m / 1 == m);
        vstd::arithmetic::div_mod::lemma_small_mod(m, 0x1_0000_0000);
    }
}

/// ToInt32 is idempotent: converting a number, reading the result back as a
/// number, and converting again changes nothing. In particular
/// `ToInt32(ToInt32(x)) == ToInt32(x)` for every finite x.
pub proof fn lemma_to_int_32_idempotent(n: JsNumber)
    ensures
        spec_to_int_32(spec_number_of_i32(spec_to_int_32(n))) == spec_to_int_32(n),
{
    lemma_to_int_32_in_range(n);
    lemma_to_int_32_fixed_point(spec_to_int_32(n));
}

/// Executable ToInt32 over a statically known number.
pub fn to_int_32(n: &JsNumber) -> (r: i32)
    ensures
        r as int == spec_to_int_32(*n),
{
    match n {
        JsNumber::Finite { neg, mant, scale } => {
            let t: u64 = if *scale >= 20 {
                proof {
                    lemma_pow10_monotone(20, *scale as nat);
                    assert(pow10(20) == 0x5_6bc7_5e2d_6310_0000) by {
                        reveal_with_fuel(pow10, 21);
                    }
                    lemma_pow10_positive(*scale as nat);
                    vstd::arithmetic::div_mod::lemma_basic_div(
                        *mant as int,
                        pow10(*scale as nat) as int,
                    );
                }
                0
            } else {
                let p = pow10_u64(*scale);
                proof {
                    lemma_pow10_positive(*scale as nat);
                }
                mant / p
            };
            let u: u64 = t % 0x1_0000_0000;
            let v: u64 = if *neg && u != 0 {
                proof {
                    vstd::arithmetic::div_mod::lemma_small_mod(
                        (0x1_0000_0000 - u) as nat,
                        0x1_0000_0000,
                    );
                }
                0x1_0000_0000 - u
            } else {
                proof {
                    if *neg {
                        assert((0x1_0000_0000 - 0) % 0x1_0000_0000int == 0) by {
                            vstd::arithmetic::div_mod::lemma_mod_self_0(0x1_0000_0000int);
                        }
                    }
                }
                u
            };
            if v >= 0x8000_0000 {
                let w: u64 = 0x1_0000_0000 - v;
                (-(w as i64)) as i32
            } else {
                v as i32
            }
        },
        _ => 0,
    }
}

/// `10^e` for exponents whose power fits `u64`.
fn pow10_u64(e: u32) -> (r: u64)
    requires
        e < 20,
    ensures
        r as nat == pow10(e as nat),
{
    let mut r: u64 = 1;
    let mut i: u32 = 0;
    proof {
        lemma_pow10_monotone(e as nat, 19);
        assert(pow10(19) == 0x8ac7_2304_89e8_0000) by {
            reveal_with_fuel(pow10, 20);
        }
    }
    while i < e
        invariant
            0 <= i <= e < 20,
            r as nat == pow10(i as nat),
            pow10(e as nat) <= 0x8ac7_2304_89e8_0000,
        decreases e - i,
    {
        proof {
            lemma_pow10_monotone((i + 1) as nat, e as nat);
        }
        r = r * 10;
        i = i + 1;
    }
    r
}


/// The specification's ToInt32 of a node, through ToNumber.
pub open spec fn spec_to_int_32_node(t: crate::ast::SyntaxTree, i: int) -> Option<int> {
    match crate::to_number::spec_to_number(t, i) {
        Some(n) => Some(spec_to_int_32(n)),
        None => None,
    }
}

pub fn to_int_32_node(t: &crate::ast::SyntaxTree, i: usize) -> (r: Option<i32>)
    requires
        t.wf(),
        i < t.nodes@.len(),
    ensures
        match r {
            Some(x) => spec_to_int_32_node(*t, i as int) == Some(x as int),
            None => spec_to_int_32_node(*t, i as int) is None,
        },
{
    match crate::to_number::to_number(t, i) {
        Some(n) => Some(to_int_32(&n)),
        None => None,
    }
}

} // verus!
