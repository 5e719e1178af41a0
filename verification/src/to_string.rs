use vstd::prelude::*;
use crate::number::JsNumber;
use crate::big_int::JsBigInt;
use crate::text::JsString;
use crate::to_number::spec_infinity_word;

verus! {

/// The decimal digits of `n`, most significant first.
pub open spec fn spec_dec_digits(n: nat) -> Seq<u16>
    decreases n,
{
    if n < 10 {
        seq![(0x30 + n) as u16]
    } else {
        spec_dec_digits(n / 10) + seq![(0x30 + n % 10) as u16]
    }
}

/// `n` repetitions of the digit `0`.
pub open spec fn spec_zeros(n: nat) -> Seq<u16>
    decreases n,
{
    if n == 0 {
        Seq::empty()
    } else {
        seq![0x30u16] + spec_zeros((n - 1) as nat)
    }
}

/// The canonical decimal rendering of a number value: `NaN`, signed
/// `Infinity`, or the shortest fixed or exponential decimal form of the
/// exact value, as the specification's number-to-string algorithm renders
/// doubles whose value the decimal model holds. Negative zero renders as
/// `0`.
pub open spec fn spec_render_number(v: JsNumber) -> Seq<u16> {
    match v {
        JsNumber::NaN => seq![0x4Eu16, 0x61u16, 0x4Eu16],
        JsNumber::PosInfinity => spec_infinity_word(),
        JsNumber::NegInfinity => seq![0x2Du16] + spec_infinity_word(),
        JsNumber::Finite { neg, mant, scale } => {
            if mant == 0 {
                seq![0x30u16]
            } else {
                let sign: Seq<u16> = if neg {
                    seq![0x2Du16]
                } else {
                    Seq::empty()
                };
                let digits = spec_dec_digits(mant as nat);
                let k = digits.len();
                if scale == 0 {
                    sign + digits
                } else if k > scale {
                    sign + digits.subrange(0, k - scale) + seq![0x2Eu16] + digits.subrange(
                        k - scale,
                        k as int,
                    )
                } else if scale - k < 6 {
                    sign + seq![0x30u16, 0x2Eu16] + spec_zeros((scale - k) as nat) + digits
                } else {
                    let tail: Seq<u16> = if k > 1 {
                        seq![0x2Eu16] + digits.subrange(1, k as int)
                    } else {
                        Seq::empty()
                    };
                    sign + seq![digits[0]] + tail + seq![0x65u16, 0x2Du16] + spec_dec_digits(
                        (scale - k + 1) as nat,
                    )
                }
            }
        },
    }
}

/// The rendering of a big-integer value (no `n` suffix).
pub open spec fn spec_render_big_int(b: JsBigInt) -> Seq<u16> {
    if b.neg {
        seq![0x2Du16] + spec_dec_digits(b.mag as nat)
    } else {
        spec_dec_digits(b.mag as nat)
    }
}

pub proof fn lemma_dec_digits_len(n: nat)
    ensures
        spec_dec_digits(n).len() >= 1,
    decreases n,
{
    if n >= 10 {
        lemma_dec_digits_len(n / 10);
    }
}

fn dec_digits_u128(n: u128) -> (r: JsString)
    ensures
        r@ == spec_dec_digits(n as nat),
    decreases n,
{
    if n < 10 {
        let mut out: JsString = Vec::new();
        out.push(0x30 + n as u16);
        proof {
            assert(out@ =~= spec_dec_digits(n as nat));
        }
        out
    } else {
        let mut out = dec_digits_u128(n / 10);
        out.push(0x30 + (n % 10) as u16);
        proof {
            assert(out@ =~= spec_dec_digits(n as nat));
        }
        out
    }
}

/// Appends `src[from..to]` to `out`.
fn append_range(out: &mut JsString, src: &JsString, from: usize, to: usize)
    requires
        from <= to <= src@.len(),
    ensures
        final(out)@ == old(out)@ + src@.subrange(from as int, to as int),
{
    let mut i: usize = from;
    while i < to
        invariant
            from <= i <= to <= src@.len(),
            out@ =~= old(out)@ + src@.subrange(from as int, i as int),
        decreases to - i,
    {
        out.push(src[i]);
        i = i + 1;
    }
    proof {
        assert(out@ =~= old(out)@ + src@.subrange(from as int, to as int));
    }
}

/// Executable rendering of a number value.
#[verifier::loop_isolation(false)]
#[verifier::rlimit(60)]
pub fn render_number(v: &JsNumber) -> (r: JsString)
    ensures
        r@ == spec_render_number(*v),
{
    match v {
        JsNumber::NaN => {
            let mut out: JsString = Vec::new();
            out.push(0x4E);
            out.push(0x61);
            out.push(0x4E);
            proof {
                assert(out@ =~= spec_render_number(JsNumber::NaN));
            }
            out
        },
        JsNumber::PosInfinity => {
            let out = infinity_units(false);
            out
        },
        JsNumber::NegInfinity => {
            let out = infinity_units(true);
            out
        },
        JsNumber::Finite { neg, mant, scale } => {
            let mut out: JsString = Vec::new();
            if *mant == 0 {
                out.push(0x30);
                proof {
                    assert(out@ =~= spec_render_number(*v));
                }
                return out;
            }
            if *neg {
                out.push(0x2D);
            }
            let digits = dec_digits_u128(*mant as u128);
            let k = digits.len();
            proof {
                lemma_dec_digits_len(*mant as nat);
            }
            if *scale == 0 {
                append_range(&mut out, &digits, 0, k);
                proof {
                    assert(digits@.subrange(0, k as int) =~= digits@);
                    assert(out@ =~= spec_render_number(*v));
                }
                out
            } else if k > *scale as usize {
                let cut = k - *scale as usize;
                append_range(&mut out, &digits, 0, cut);
                out.push(0x2E);
                append_range(&mut out, &digits, cut, k);
                proof {
                    assert(out@ =~= spec_render_number(*v));
                }
                out
            } else if (*scale as usize - k) < 6 {
                out.push(0x30);
                out.push(0x2E);
                let nz = *scale as usize - k;
                let mut z: usize = 0;
                let ghost mid = out@;
                while z < nz
                    invariant
                        0 <= z <= nz,
                        out@ =~= mid + spec_zeros(z as nat),
                    decreases nz - z,
                {
                    out.push(0x30);
                    proof {
                        lemma_zeros_snoc(z as nat);
                    }
                    z = z + 1;
                }
                append_range(&mut out, &digits, 0, k);
                proof {
                    assert(digits@.subrange(0, k as int) =~= digits@);
                    assert(out@ =~= spec_render_number(*v));
                }
                out
            } else {
                out.push(digits[0]);
                if k > 1 {
                    out.push(0x2E);
                    append_range(&mut out, &digits, 1, k);
                }
                out.push(0x65);
                out.push(0x2D);
                let e = dec_digits_u128((*scale as u128 - k as u128) + 1);
                append_range(&mut out, &e, 0, e.len());
                proof {
                    assert(e@.subrange(0, e@.len() as int) =~= e@);
                    assert(out@ =~= spec_render_number(*v));
                }
                out
            }
        },
    }
}

proof fn lemma_zeros_snoc(n: nat)
    ensures
        spec_zeros(n) + seq![0x30u16] =~= spec_zeros(n + 1),
    decreases n,
{
    if n > 0 {
        lemma_zeros_snoc((n - 1) as nat);
        assert(spec_zeros(n) + seq![0x30u16] =~= seq![0x30u16] + (spec_zeros((n - 1) as nat)
            + seq![0x30u16]));
    }
}

fn infinity_units(neg: bool) -> (r: JsString)
    ensures
        !neg ==> r@ == spec_infinity_word(),
        neg ==> r@ == seq![0x2Du16] + spec_infinity_word(),
{
    let mut out: JsString = Vec::new();
    if neg {
        out.push(0x2D);
    }
    out.push(0x49);
    out.push(0x6E);
    out.push(0x66);
    out.push(0x69);
    out.push(0x6E);
    out.push(0x69);
    out.push(0x74);
    out.push(0x79);
    proof {
        if neg {
            assert(out@ =~= seq![0x2Du16] + spec_infinity_word());
        } else {
            assert(out@ =~= spec_infinity_word());
        }
    }
    out
}

/// Executable rendering of a big-integer value.
pub fn render_big_int(b: &JsBigInt) -> (r: JsString)
    ensures
        r@ == spec_render_big_int(*b),
{
    let mut out: JsString = Vec::new();
    if b.neg {
        out.push(0x2D);
    }
    let digits = dec_digits_u128(b.mag);
    append_range(&mut out, &digits, 0, digits.len());
    proof {
        assert(digits@.subrange(0, digits@.len() as int) =~= digits@);
        if b.neg {
            assert(out@ =~= spec_render_big_int(*b));
        } else {
            assert(out@ =~= spec_render_big_int(*b));
        }
    }
    out
}


/// The specification's ToString of a node, through static evaluation.
pub open spec fn spec_to_js_string(t: crate::ast::SyntaxTree, i: int) -> Option<Seq<u16>> {
    match crate::eval::spec_eval(t, i) {
        Some(v) => Some(crate::value::spec_to_js_string_value(v)),
        None => None,
    }
}

pub fn to_js_string(t: &crate::ast::SyntaxTree, i: usize) -> (r: Option<JsString>)
    requires
        t.wf(),
        i < t.nodes@.len(),
    ensures
        match r {
            Some(s) => spec_to_js_string(*t, i as int) == Some(s@),
            None => spec_to_js_string(*t, i as int) is None,
        },
{
    match crate::eval::eval_node(t, i) {
        Some(v) => Some(crate::value::to_js_string_value(&v)),
        None => None,
    }
}

} // verus!
