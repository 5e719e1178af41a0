use vstd::prelude::*;

verus! {

/// A statically known ECMAScript big integer.
///
/// `(-1)^neg * mag`. Canonical form: zero is never negative. Values whose
/// magnitude does not fit `u128` are treated as not statically known by the
/// conversions in this crate.
#[derive(Clone, Copy, Debug, PartialEq, Eq, Structural)]
pub struct JsBigInt {
    pub neg: bool,
    pub mag: u128,
}

impl JsBigInt {
    /// Canonical-form invariant: one representation per mathematical value.
    pub open spec fn wf(self) -> bool {
        self.mag == 0 ==> !self.neg
    }

    /// The mathematical integer this value stands for.
    pub open spec fn spec_int(self) -> int {
        if self.neg {
            -(self.mag as int)
        } else {
            self.mag as int
        }
    }

    pub fn new(neg: bool, mag: u128) -> (r: JsBigInt)
        ensures
            r.neg == (neg && mag != 0),
            r.mag == mag,
            r.wf(),
    {
        JsBigInt { neg: neg && mag != 0, mag }
    }

    pub fn zero() -> (r: JsBigInt)
        ensures
            r == (JsBigInt { neg: false, mag: 0u128 }),
            r.wf(),
    {
        JsBigInt { neg: false, mag: 0 }
    }
}

} // verus!
