use vstd::prelude::*;
use crate::number::{
    pow10, lemma_pow10_adds, lemma_pow10_positive, spec_strip, lemma_strip_bounds, JsNumber,
};
use crate::text::{
    spec_is_trimmable, is_trimmable, spec_is_digit, spec_all_digits, spec_radix_value,
    parse_radix, copy_range, JsString,
};

verus! {

// ---------------------------------------------------------------------------
// Trimming of white space and line terminators
// ---------------------------------------------------------------------------
/// First index at or after `i` holding a non-trimmable code unit.
pub open spec fn spec_trim_left(s: Seq<u16>, i: nat) -> nat
    decreases s.len() - i,
        when i <= s.len()
{
    if i < s.len() && spec_is_trimmable(s[i as int]) {
        spec_trim_left(s, i + 1)
    } else {
        i
    }
}

/// End of the string with trailing trimmable code units removed, scanning
/// down from `j`.
pub open spec fn spec_trim_right(s: Seq<u16>, j: nat) -> nat
    decreases j,
{
    if j > 0 && j <= s.len() && spec_is_trimmable(s[j - 1]) {
        spec_trim_right(s, (j - 1) as nat)
    } else {
        j
    }
}

pub fn trim_left_from(s: &JsString, i: usize) -> (r: usize)
    requires
        i <= s@.len(),
    ensures
        r == spec_trim_left(s@, i as nat),
        i <= r <= s@.len(),
        r < s@.len() ==> !spec_is_trimmable(s@[r as int]),
    decreases s@.len() - i,
{
    if i < s.len() && is_trimmable(s[i]) {
        trim_left_from(s, i + 1)
    } else {
        i
    }
}

pub fn trim_right_from(s: &JsString, j: usize) -> (r: usize)
    requires
        j <= s@.len(),
    ensures
        r == spec_trim_right(s@, j as nat),
        r <= j,
    decreases j,
{
    if j > 0 && is_trimmable(s[j - 1]) {
        trim_right_from(s, j - 1)
    } else {
        j
    }
}

pub proof fn lemma_trim_right_stops(s: Seq<u16>, j: nat, k: nat)
    requires
        k < j <= s.len(),
        !spec_is_trimmable(s[k as int]),
    ensures
        k < spec_trim_right(s, j) <= j,
    decreases j,
{
    if j > 0 && spec_is_trimmable(s[j - 1]) {
        lemma_trim_right_stops(s, (j - 1) as nat, k);
    }
}

// ---------------------------------------------------------------------------
// Digit runs
// ---------------------------------------------------------------------------
/// Length of the run of decimal digits starting at `i`.
pub open spec fn spec_digit_run(s: Seq<u16>, i: nat) -> nat
    decreases s.len() - i,
        when i <= s.len()
{
    if i < s.len() && spec_is_digit(s[i as int], 10) {
        1 + spec_digit_run(s, i + 1)
    } else {
        0
    }
}

proof fn lemma_digit_run_in_bounds(s: Seq<u16>, i: nat)
    requires
        i <= s.len(),
    ensures
        i + spec_digit_run(s, i) <= s.len(),
        spec_all_digits(s.subrange(i as int, (i + spec_digit_run(s, i)) as int), 10),
    decreases s.len() - i,
{
    if i < s.len() && spec_is_digit(s[i as int], 10) {
        lemma_digit_run_in_bounds(s, i + 1);
        let r = spec_digit_run(s, i);
        let sub = s.subrange(i as int, (i + r) as int);
        let sub1 = s.subrange(i + 1 as int, (i + r) as int);
        assert forall|k: int| 0 <= k < sub.len() implies spec_is_digit(#[trigger] sub[k], 10) by {
            if k > 0 {
                assert(sub[k] == sub1[k - 1]);
            }
        }
    }
}

fn digit_run(s: &JsString, i: usize) -> (r: usize)
    requires
        i <= s@.len(),
    ensures
        r == spec_digit_run(s@, i as nat),
        i + r <= s@.len(),
    decreases s@.len() - i,
{
    if i < s.len() && crate::text::digit_value(s[i], 10) < 36 {
        let rest = digit_run(s, i + 1);
        1 + rest
    } else {
        0
    }
}

// ---------------------------------------------------------------------------
// The StringNumericLiteral grammar
// ---------------------------------------------------------------------------
/// The code units of the word `Infinity`.
pub open spec fn spec_infinity_word() -> Seq<u16> {
    seq![0x49u16, 0x6Eu16, 0x66u16, 0x69u16, 0x6Eu16, 0x69u16, 0x74u16, 0x79u16]
}

pub open spec fn spec_zero_number() -> JsNumber {
    JsNumber::Finite { neg: false, mant: 0u64, scale: 0u32 }
}

/// A non-decimal integer literal after its `0x` / `0o` / `0b` prefix: all
/// remaining code units must be digits of the radix. A malformed tail is
/// NaN; a value beyond the mantissa range is not statically known.
pub open spec fn spec_parse_radix_tail(t: Seq<u16>, radix: u16) -> Option<JsNumber> {
    let rest = t.subrange(2, t.len() as int);
    if rest.len() == 0 || !spec_all_digits(rest, radix) {
        Some(JsNumber::NaN)
    } else if spec_radix_value(rest, radix) > u64::MAX {
        None
    } else {
        Some(JsNumber::Finite { neg: false, mant: spec_radix_value(rest, radix) as u64, scale: 0u32 })
    }
}

/// The numeric value of a parsed decimal literal: mantissa digits (integer
/// and fraction concatenated), the fraction length, and a signed exponent.
/// Values outside the canonical decimal model are not statically known.
pub open spec fn spec_decimal_value(
    neg: bool,
    int_digits: Seq<u16>,
    frac_digits: Seq<u16>,
    exp_neg: bool,
    exp_digits: Seq<u16>,
) -> Option<JsNumber> {
    let m = spec_radix_value(int_digits + frac_digits, 10);
    let ev = spec_radix_value(exp_digits, 10);
    if m == 0 {
        Some(JsNumber::Finite { neg, mant: 0u64, scale: 0u32 })
    } else if ev > 100000 {
        None
    } else if !exp_neg && ev >= frac_digits.len() {
        let up = (ev - frac_digits.len()) as nat;
        if m * pow10(up) > u64::MAX {
            None
        } else {
            Some(JsNumber::Finite { neg, mant: (m * pow10(up)) as u64, scale: 0u32 })
        }
    } else {
        let sc: nat = if exp_neg {
            (frac_digits.len() + ev) as nat
        } else {
            (frac_digits.len() - ev) as nat
        };
        if m > u64::MAX || sc > u32::MAX {
            None
        } else {
            let stripped = spec_strip(m as nat, sc);
            Some(JsNumber::Finite {
                neg,
                mant: stripped.0 as u64,
                scale: stripped.1 as u32,
            })
        }
    }
}

/// A signed decimal literal body (sign already removed): digit run, an
/// optional fraction after a decimal point, an optional exponent part, and
/// nothing else.
pub open spec fn spec_parse_decimal(body: Seq<u16>, neg: bool) -> Option<JsNumber> {
    let di = spec_digit_run(body, 0);
    let has_dot = di < body.len() && body[di as int] == 0x2E;
    let fs: nat = if has_dot {
        di + 1
    } else {
        di
    };
    let fe: nat = if has_dot {
        fs + spec_digit_run(body, fs)
    } else {
        di
    };
    let int_digits = body.subrange(0, di as int);
    let frac_digits = body.subrange(fs as int, fe as int);
    if di + frac_digits.len() == 0 {
        Some(JsNumber::NaN)
    } else if fe == body.len() {
        spec_decimal_value(neg, int_digits, frac_digits, false, Seq::empty())
    } else if body[fe as int] == 0x65 || body[fe as int] == 0x45 {
        let has_esign = fe + 1 < body.len() && (body[fe + 1 as int] == 0x2B || body[fe + 1 as int] == 0x2D);
        let eneg = fe + 1 < body.len() && body[fe + 1 as int] == 0x2D;
        let ks: nat = if has_esign {
            fe + 2
        } else {
            fe + 1
        };
        let er = if ks <= body.len() {
            spec_digit_run(body, ks)
        } else {
            0
        };
        if er == 0 || ks + er != body.len() {
            Some(JsNumber::NaN)
        } else {
            spec_decimal_value(neg, int_digits, frac_digits, eneg, body.subrange(
                ks as int,
                body.len() as int,
            ))
        }
    } else {
        Some(JsNumber::NaN)
    }
}

/// A whole trimmed string operand: empty is `+0`; a `0x`/`0o`/`0b` prefix
/// starts a non-decimal integer; otherwise an optional sign precedes
/// `Infinity` or a decimal literal; anything else is NaN.
pub open spec fn spec_parse_trimmed(t: Seq<u16>) -> Option<JsNumber> {
    if t.len() == 0 {
        Some(spec_zero_number())
    } else if t.len() >= 2 && t[0] == 0x30 && (t[1] == 0x78 || t[1] == 0x58) {
        spec_parse_radix_tail(t, 16)
    } else if t.len() >= 2 && t[0] == 0x30 && (t[1] == 0x6F || t[1] == 0x4F) {
        spec_parse_radix_tail(t, 8)
    } else if t.len() >= 2 && t[0] == 0x30 && (t[1] == 0x62 || t[1] == 0x42) {
        spec_parse_radix_tail(t, 2)
    } else {
        let neg = t[0] == 0x2D;
        let has_sign = t[0] == 0x2B || t[0] == 0x2D;
        let body = if has_sign {
            t.subrange(1, t.len() as int)
        } else {
            t
        };
        if body == spec_infinity_word() {
            Some(
                if neg {
                    JsNumber::NegInfinity
                } else {
                    JsNumber::PosInfinity
                },
            )
        } else {
            spec_parse_decimal(body, neg)
        }
    }
}

/// The specification's ToNumber of a string operand: trim white space and
/// line terminators at both ends, then read the numeric-literal grammar.
/// `None` stands for a value outside the crate's decimal model, never for a
/// grammar failure (that is NaN).
pub open spec fn spec_to_number_of_string(s: Seq<u16>) -> Option<JsNumber> {
    let lo = spec_trim_left(s, 0);
    if lo == s.len() {
        Some(spec_zero_number())
    } else {
        let hi = spec_trim_right(s, s.len());
        spec_parse_trimmed(s.subrange(lo as int, hi as int))
    }
}

// ---------------------------------------------------------------------------
// Executable parser
// ---------------------------------------------------------------------------
fn parse_radix_tail(t: &JsString, radix: u16) -> (r: Option<JsNumber>)
    requires
        2 <= t@.len(),
        radix == 16 || radix == 8 || radix == 2,
    ensures
        r == spec_parse_radix_tail(t@, radix),
{
    if t.len() == 2 {
        return Some(JsNumber::NaN);
    }
    match parse_radix(t, 2, t.len(), radix) {
        None => {
            // Either some code unit is no digit (NaN), or the value is
            // beyond u128, hence beyond the mantissa range (unknown).
            if all_digits_exec(t, 2, t.len(), radix) {
                None
            } else {
                Some(JsNumber::NaN)
            }
        },
        Some(v) => {
            if v > u64::MAX as u128 {
                None
            } else {
                Some(JsNumber::Finite { neg: false, mant: v as u64, scale: 0 })
            }
        },
    }
}

/// Whether every code unit in the window is a digit of the radix.
fn all_digits_exec(s: &JsString, from: usize, to: usize, radix: u16) -> (r: bool)
    requires
        from <= to <= s@.len(),
        radix <= 36,
    ensures
        r == spec_all_digits(s@.subrange(from as int, to as int), radix),
{
    let ghost w = s@.subrange(from as int, to as int);
    let mut i: usize = from;
    while i < to
        invariant
            from <= i <= to <= s@.len(),
            radix <= 36,
            w == s@.subrange(from as int, to as int),
            forall|k: int| 0 <= k < i - from ==> spec_is_digit(#[trigger] w[k], radix),
        decreases to - i,
    {
        if crate::text::digit_value(s[i], radix) >= 36 {
            proof {
                assert(w[i - from] == s@[i as int]);
            }
            return false;
        }
        i = i + 1;
    }
    true
}

/// Folds the digit windows of a decimal literal into a canonical number.
#[verifier::loop_isolation(false)]
fn decimal_value(
    body: &JsString,
    neg: bool,
    di: usize,
    fs: usize,
    fe: usize,
    exp_neg: bool,
    ks: usize,
    ke: usize,
) -> (r: Option<JsNumber>)
    requires
        di <= fs <= fe <= body@.len(),
        ks <= ke <= body@.len(),
        spec_all_digits(body@.subrange(0, di as int), 10),
        spec_all_digits(body@.subrange(fs as int, fe as int), 10),
        spec_all_digits(body@.subrange(ks as int, ke as int), 10),
    ensures
        r == spec_decimal_value(
            neg,
            body@.subrange(0, di as int),
            body@.subrange(fs as int, fe as int),
            exp_neg,
            body@.subrange(ks as int, ke as int),
        ),
{
    let ghost int_digits = body@.subrange(0, di as int);
    let ghost frac_digits = body@.subrange(fs as int, fe as int);
    let ghost exp_digits = body@.subrange(ks as int, ke as int);
    // mantissa digits: integer part followed by fraction
    let mut digs = copy_range(body, 0, di);
    let mut j: usize = fs;
    while j < fe
        invariant
            fs <= j <= fe <= body@.len(),
            di <= fs,
            digs@ =~= body@.subrange(0, di as int) + body@.subrange(fs as int, j as int),
        decreases fe - j,
    {
        digs.push(body[j]);
        j = j + 1;
    }
    proof {
        assert(digs@ =~= int_digits + frac_digits);
        assert forall|k: int| 0 <= k < digs@.len() implies spec_is_digit(
            #[trigger] digs@[k],
            10,
        ) by {
            if k < int_digits.len() {
                assert(digs@[k] == int_digits[k]);
            } else {
                assert(digs@[k] == frac_digits[k - int_digits.len()]);
            }
        }
    }
    let m128 = parse_radix(&digs, 0, digs.len(), 10);
    proof {
        assert(digs@.subrange(0, digs@.len() as int) =~= digs@);
    }
    let ghost m = spec_radix_value(int_digits + frac_digits, 10);
    // the exponent value
    let e128 = parse_radix(body, ks, ke, 10);
    let ghost ev = spec_radix_value(exp_digits, 10);
    match m128 {
        Some(mv) => {
            if mv == 0 {
                return Some(JsNumber::Finite { neg, mant: 0, scale: 0 });
            }
            let ev_big: bool = match e128 {
                Some(e) => e > 100000,
                None => true,
            };
            if ev_big {
                proof {
                    assert(ev > 100000);
                }
                return None;
            }
            let e: u128 = match e128 {
                Some(e) => e,
                None => 0,
            };
            let frac_len: usize = fe - fs;
            if !exp_neg && e >= frac_len as u128 {
                let up: u128 = e - frac_len as u128;
                let ghost upn = (ev - frac_digits.len()) as nat;
                let mut acc: u128 = mv;
                let mut k: u128 = 0;
                proof {
                    assert(pow10(0) == 1);
                    assert((m as int) * pow10(0) == m as int) by (nonlinear_arith)
                        requires
                            pow10(0) == 1,
                    ;
                }
                while k < up
                    invariant
                        0 <= k <= up <= 100000,
                        acc == (m as int) * pow10(k as nat),
                        m >= 1,
                        upn == up,
                    decreases up - k,
                {
                    if acc > u64::MAX as u128 {
                        proof {
                            lemma_pow10_adds(k as nat, (upn - k) as nat);
                            lemma_pow10_positive((upn - k) as nat);
                            assert(m * pow10(upn) >= acc) by (nonlinear_arith)
                                requires
                                    pow10(upn) == pow10(k as nat) * pow10((upn - k) as nat),
                                    acc == (m as int) * pow10(k as nat),
                                    pow10((upn - k) as nat) >= 1,
                                    m >= 0,
                                    acc >= 0,
                            ;
                        }
                        return None;
                    }
                    proof {
                        assert(pow10((k + 1) as nat) == 10 * pow10(k as nat));
                        assert((acc as int) * 10 == (m as int) * pow10((k + 1) as nat))
                            by (nonlinear_arith)
                            requires
                                acc == (m as int) * pow10(k as nat),
                                pow10((k + 1) as nat) == 10 * pow10(k as nat),
                        ;
                    }
                    acc = acc * 10;
                    k = k + 1;
                }
                if acc > u64::MAX as u128 {
                    return None;
                }
                proof {
                    assert(m * pow10(upn) == acc);
                }
                Some(JsNumber::Finite { neg, mant: acc as u64, scale: 0 })
            } else {
                // net scale is positive: frac_len - e, or frac_len + e
                let sc128: u128 = if exp_neg {
                    frac_len as u128 + e
                } else {
                    frac_len as u128 - e
                };
                if mv > u64::MAX as u128 || sc128 > u32::MAX as u128 {
                    return None;
                }
                let mut sm: u64 = mv as u64;
                let mut sc: u32 = sc128 as u32;
                let ghost stripped = spec_strip(m as nat, sc128 as nat);
                while sc > 0 && sm % 10 == 0
                    invariant
                        spec_strip(sm as nat, sc as nat) == stripped,
                    decreases sc,
                {
                    sm = sm / 10;
                    sc = sc - 1;
                }
                Some(JsNumber::Finite { neg, mant: sm, scale: sc })
            }
        },
        None => {
            // The mantissa digits are all digits by construction, so the
            // value is past u128, hence past the mantissa range: every branch
            // of the specification yields "not statically known".
            proof {
                assert(m > u64::MAX);
                if ev <= 100000 && !exp_neg && ev >= frac_digits.len() {
                    let upn = (ev - frac_digits.len()) as nat;
                    lemma_pow10_positive(upn);
                    assert(m * pow10(upn) >= m) by (nonlinear_arith)
                        requires
                            pow10(upn) >= 1,
                            m >= 0,
                    ;
                }
            }
            None
        },
    }
}

/// Reads a trimmed, non-empty string operand.
fn parse_trimmed(t: &JsString) -> (r: Option<JsNumber>)
    requires
        t@.len() >= 1,
    ensures
        r == spec_parse_trimmed(t@),
{
    if t.len() >= 2 && t[0] == 0x30 && (t[1] == 0x78 || t[1] == 0x58) {
        return parse_radix_tail(t, 16);
    }
    if t.len() >= 2 && t[0] == 0x30 && (t[1] == 0x6F || t[1] == 0x4F) {
        return parse_radix_tail(t, 8);
    }
    if t.len() >= 2 && t[0] == 0x30 && (t[1] == 0x62 || t[1] == 0x42) {
        return parse_radix_tail(t, 2);
    }
    let neg = t[0] == 0x2D;
    let has_sign = t[0] == 0x2B || t[0] == 0x2D;
    let start: usize = if has_sign {
        1
    } else {
        0
    };
    let body = copy_range(t, start, t.len());
    proof {
        if !has_sign {
            assert(t@.subrange(0, t@.len() as int) =~= t@);
        }
    }
    if is_infinity_word(&body) {
        return Some(
            if neg {
                JsNumber::NegInfinity
            } else {
                JsNumber::PosInfinity
            },
        );
    }
    parse_decimal(&body, neg)
}

/// Reads a decimal literal body (sign already removed).
#[verifier::rlimit(100)]
fn parse_decimal(body: &JsString, neg: bool) -> (r: Option<JsNumber>)
    ensures
        r == spec_parse_decimal(body@, neg),
{
    let di = digit_run(body, 0);
    proof {
        lemma_digit_run_in_bounds(body@, 0);
    }
    let has_dot = di < body.len() && body[di] == 0x2E;
    let fs: usize = if has_dot {
        di + 1
    } else {
        di
    };
    let fe: usize = if has_dot {
        let fr = digit_run(body, fs);
        proof {
            lemma_digit_run_in_bounds(body@, fs as nat);
        }
        fs + fr
    } else {
        di
    };
    if di + (fe - fs) == 0 {
        return Some(JsNumber::NaN);
    }
    proof {
        lemma_digit_run_in_bounds(body@, 0);
        if has_dot {
            lemma_digit_run_in_bounds(body@, fs as nat);
        } else {
            assert(body@.subrange(fs as int, fe as int) =~= Seq::<u16>::empty());
        }
    }
    if fe == body.len() {
        proof {
            assert(body@.subrange(fe as int, fe as int) =~= Seq::<u16>::empty());
            assert(Seq::<u16>::empty() =~= body@.subrange(fe as int, fe as int));
        }
        let r = decimal_value(body, neg, di, fs, fe, false, fe, fe);
        proof {
            assert(body@.subrange(fe as int, fe as int) =~= Seq::<u16>::empty());
        }
        return r;
    }
    if body[fe] == 0x65 || body[fe] == 0x45 {
        let has_esign = fe + 1 < body.len() && (body[fe + 1] == 0x2B || body[fe + 1] == 0x2D);
        let eneg = fe + 1 < body.len() && body[fe + 1] == 0x2D;
        let ks: usize = if has_esign {
            fe + 2
        } else {
            fe + 1
        };
        let er = if ks <= body.len() {
            let e = digit_run(body, ks);
            proof {
                lemma_digit_run_in_bounds(body@, ks as nat);
            }
            e
        } else {
            0
        };
        if er == 0 || ks + er != body.len() {
            return Some(JsNumber::NaN);
        }
        proof {
            lemma_digit_run_in_bounds(body@, ks as nat);
        }
        decimal_value(body, neg, di, fs, fe, eneg, ks, body.len())
    } else {
        Some(JsNumber::NaN)
    }
}

fn is_infinity_word(t: &JsString) -> (r: bool)
    ensures
        r == (t@ == spec_infinity_word()),
{
    if t.len() != 8 {
        proof {
            assert(spec_infinity_word().len() == 8);
        }
        return false;
    }
    let r = t[0] == 0x49 && t[1] == 0x6E && t[2] == 0x66 && t[3] == 0x69 && t[4] == 0x6E
        && t[5] == 0x69 && t[6] == 0x74 && t[7] == 0x79;
    proof {
        if r {
            assert(t@ =~= spec_infinity_word());
        } else {
            assert(t@ != spec_infinity_word());
        }
    }
    r
}

/// Executable ToNumber of a string operand.
pub fn to_number_of_string(s: &JsString) -> (r: Option<JsNumber>)
    ensures
        r == spec_to_number_of_string(s@),
{
    let lo = trim_left_from(s, 0);
    if lo == s.len() {
        return Some(JsNumber::Finite { neg: false, mant: 0, scale: 0 });
    }
    let hi = trim_right_from(s, s.len());
    proof {
        lemma_trim_right_stops(s@, s@.len(), lo as nat);
    }
    let t = copy_range(s, lo, hi);
    parse_trimmed(&t)
}


/// The specification's ToNumber of a node: literals and folded unary and
/// binary combinations convert; `None` where the node is not statically
/// evaluable or its value lies outside the decimal model.
pub open spec fn spec_to_number(t: crate::ast::SyntaxTree, i: int) -> Option<JsNumber> {
    match crate::eval::spec_eval(t, i) {
        Some(v) => crate::value::spec_to_number_value(v),
        None => None,
    }
}

pub fn to_number(t: &crate::ast::SyntaxTree, i: usize) -> (r: Option<JsNumber>)
    requires
        t.wf(),
        i < t.nodes@.len(),
    ensures
        r == spec_to_number(*t, i as int),
{
    match crate::eval::eval_node(t, i) {
        Some(v) => crate::value::to_number_value(&v),
        None => None,
    }
}


/// Every number the string grammar yields is in canonical form: the
/// mantissa carries no trailing decimal zero and zero has scale zero.
pub proof fn lemma_decimal_value_wf(
    neg: bool,
    int_digits: Seq<u16>,
    frac_digits: Seq<u16>,
    exp_neg: bool,
    exp_digits: Seq<u16>,
)
    ensures
        match spec_decimal_value(neg, int_digits, frac_digits, exp_neg, exp_digits) {
            Some(n) => n.wf(),
            None => true,
        },
{
    let m = crate::text::spec_radix_value(int_digits + frac_digits, 10);
    let ev = crate::text::spec_radix_value(exp_digits, 10);
    if m != 0 && ev <= 100000 && !(!exp_neg && ev >= frac_digits.len()) {
        let sc: nat = if exp_neg {
            (frac_digits.len() + ev) as nat
        } else {
            (frac_digits.len() - ev) as nat
        };
        if m <= u64::MAX && sc <= u32::MAX {
            lemma_strip_bounds(m as nat, sc);
        }
    }
}

/// ToNumber of a string never leaves canonical form.
pub proof fn lemma_to_number_of_string_wf(s: Seq<u16>)
    ensures
        match spec_to_number_of_string(s) {
            Some(n) => n.wf(),
            None => true,
        },
{
    let lo = spec_trim_left(s, 0);
    if lo != s.len() {
        let hi = spec_trim_right(s, s.len());
        let t = s.subrange(lo as int, hi as int);
        if t.len() == 0 {
        } else if t.len() >= 2 && t[0] == 0x30 && (t[1] == 0x78 || t[1] == 0x58 || t[1] == 0x6F
            || t[1] == 0x4F || t[1] == 0x62 || t[1] == 0x42) {
        } else {
            let has_sign = t[0] == 0x2B || t[0] == 0x2D;
            let body = if has_sign {
                t.subrange(1, t.len() as int)
            } else {
                t
            };
            if body != spec_infinity_word() {
                lemma_parse_decimal_wf(body, t[0] == 0x2D);
            }
        }
    }
}

proof fn lemma_parse_decimal_wf(body: Seq<u16>, neg: bool)
    ensures
        match spec_parse_decimal(body, neg) {
            Some(n) => n.wf(),
            None => true,
        },
{
    let di = spec_digit_run(body, 0);
    let has_dot = di < body.len() && body[di as int] == 0x2E;
    let fs: nat = if has_dot {
        di + 1
    } else {
        di
    };
    let fe: nat = if has_dot {
        fs + spec_digit_run(body, fs)
    } else {
        di
    };
    let int_digits = body.subrange(0, di as int);
    let frac_digits = body.subrange(fs as int, fe as int);
    if di + frac_digits.len() == 0 {
    } else if fe == body.len() {
        lemma_decimal_value_wf(neg, int_digits, frac_digits, false, Seq::empty());
    } else if body[fe as int] == 0x65 || body[fe as int] == 0x45 {
        let has_esign = fe + 1 < body.len() && (body[fe + 1 as int] == 0x2B || body[fe
            + 1 as int] == 0x2D);
        let eneg = fe + 1 < body.len() && body[fe + 1 as int] == 0x2D;
        let ks: nat = if has_esign {
            fe + 2
        } else {
            fe + 1
        };
        let er = if ks <= body.len() {
            spec_digit_run(body, ks)
        } else {
            0
        };
        if er == 0 || ks + er != body.len() {
        } else {
            lemma_decimal_value_wf(neg, int_digits, frac_digits, eneg, body.subrange(
                ks as int,
                body.len() as int,
            ));
        }
    }
}

} // verus!
