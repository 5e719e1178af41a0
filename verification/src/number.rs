use vstd::prelude::*;

verus! {

/// A statically known ECMAScript number.
///
/// `Finite { neg, mant, scale }` stands for the exact decimal value
/// `(-1)^neg * mant / 10^scale`; `neg == true` with `mant == 0` is negative
/// zero. Canonical form (see [`JsNumber::wf`]) keeps one representation per
/// value: the mantissa carries no trailing decimal zero, and zero has scale
/// zero. Values whose written decimal form does not fit this shape (for
/// instance a mantissa beyond `u64`) are treated as not statically known by
/// the conversions in this crate.
#[derive(Clone, Copy, Debug, PartialEq, Eq, Structural)]
pub enum JsNumber {
    NaN,
    PosInfinity,
    NegInfinity,
    Finite { neg: bool, mant: u64, scale: u32 },
}

/// `10^e`.
pub open spec fn pow10(e: nat) -> nat
    decreases e,
{
    if e == 0 {
        1
    } else {
        10 * pow10((e - 1) as nat)
    }
}

pub proof fn lemma_pow10_positive(e: nat)
    ensures
        pow10(e) >= 1,
    decreases e,
{
    if e > 0 {
        lemma_pow10_positive((e - 1) as nat);
    }
}

pub proof fn lemma_pow10_monotone(a: nat, b: nat)
    requires
        a <= b,
    ensures
        pow10(a) <= pow10(b),
    decreases b,
{
    if a < b {
        lemma_pow10_monotone(a, (b - 1) as nat);
        lemma_pow10_positive((b - 1) as nat);
    }
}

pub proof fn lemma_pow10_adds(a: nat, b: nat)
    ensures
        pow10(a + b) == pow10(a) * pow10(b),
    decreases a,
{
    if a == 0 {
        assert(a + b == b);
        assert(pow10(a) == 1);
        assert(pow10(a + b) == pow10(a) * pow10(b));
    } else {
        lemma_pow10_adds((a - 1) as nat, b);
        assert(pow10(a + b) == 10 * pow10((a + b - 1) as nat));
        assert(pow10(a + b) == pow10(a) * pow10(b)) by (nonlinear_arith)
            requires
                pow10(a + b) == 10 * pow10((a + b - 1) as nat),
                pow10((a + b - 1) as nat) == pow10((a - 1) as nat) * pow10(b),
                pow10(a) == 10 * pow10((a - 1) as nat),
        ;
    }
}

/// Removes trailing decimal zeros from a mantissa, lowering the scale with
/// each removal: the canonicalisation step of the decimal value model.
pub open spec fn spec_strip(m: nat, s: nat) -> (nat, nat)
    decreases s,
{
    if s > 0 && m % 10 == 0 {
        spec_strip(m / 10, (s - 1) as nat)
    } else {
        (m, s)
    }
}

pub proof fn lemma_strip_bounds(m: nat, s: nat)
    ensures
        spec_strip(m, s).0 <= m,
        spec_strip(m, s).1 <= s,
        spec_strip(m, s).1 == 0 || spec_strip(m, s).0 % 10 != 0,
        m > 0 ==> spec_strip(m, s).0 > 0,
        m == 0 ==> spec_strip(m, s) == (0nat, 0nat),
    decreases s,
{
    if s > 0 && m % 10 == 0 {
        lemma_strip_bounds(m / 10, (s - 1) as nat);
        vstd::arithmetic::div_mod::lemma_fundamental_div_mod(m as int, 10);
    }
}

impl JsNumber {
    /// Canonical-form invariant: one representation per mathematical value.
    pub open spec fn wf(self) -> bool {
        match self {
            JsNumber::Finite { neg, mant, scale } => {
                (scale == 0 || mant % 10 != 0) && (mant == 0 ==> scale == 0)
            },
            _ => true,
        }
    }

    pub open spec fn is_finite(self) -> bool {
        self is Finite
    }

    /// True of `+0` and `-0`.
    pub open spec fn spec_is_zero(self) -> bool {
        match self {
            JsNumber::Finite { neg, mant, scale } => mant == 0,
            _ => false,
        }
    }

    /// An integral value in canonical form has scale zero.
    pub open spec fn spec_is_integral(self) -> bool {
        match self {
            JsNumber::Finite { neg, mant, scale } => scale == 0,
            _ => false,
        }
    }

    pub fn zero() -> (r: JsNumber)
        ensures
            r == (JsNumber::Finite { neg: false, mant: 0u64, scale: 0u32 }),
    {
        JsNumber::Finite { neg: false, mant: 0, scale: 0 }
    }

    pub fn from_u64(m: u64) -> (r: JsNumber)
        ensures
            r == (JsNumber::Finite { neg: false, mant: m, scale: 0u32 }),
            r.wf(),
    {
        JsNumber::Finite { neg: false, mant: m, scale: 0 }
    }

    /// The specification's unary negation: NaN stays NaN, infinities swap,
    /// a finite value flips its sign (so `0` becomes `-0`).
    pub open spec fn spec_negate(self) -> JsNumber {
        match self {
            JsNumber::NaN => JsNumber::NaN,
            JsNumber::PosInfinity => JsNumber::NegInfinity,
            JsNumber::NegInfinity => JsNumber::PosInfinity,
            JsNumber::Finite { neg, mant, scale } => JsNumber::Finite { neg: !neg, mant, scale },
        }
    }

    pub fn negate(self) -> (r: JsNumber)
        ensures
            r == self.spec_negate(),
            self.wf() ==> r.wf(),
    {
        match self {
            JsNumber::NaN => JsNumber::NaN,
            JsNumber::PosInfinity => JsNumber::NegInfinity,
            JsNumber::NegInfinity => JsNumber::PosInfinity,
            JsNumber::Finite { neg, mant, scale } => JsNumber::Finite { neg: !neg, mant, scale },
        }
    }
}

} // verus!
