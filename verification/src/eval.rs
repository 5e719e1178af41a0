use vstd::prelude::*;
use crate::ast::{NodeKind, SyntaxTree};
use crate::number::JsNumber;
use crate::text::str_concat;
use crate::value::{
    spec_to_number_value, spec_undefined_word, to_number_value, JsValue, JsValueModel,
};

verus! {

/// The signed integer a finite zero-scale number stands for.
pub open spec fn spec_finite_int(neg: bool, mant: u64) -> int {
    if neg {
        -(mant as int)
    } else {
        mant as int
    }
}

/// Folded addition of two number values. Finite operands fold only when
/// both are integers within the double type's safe range (below `2^53`),
/// where decimal and binary arithmetic agree exactly; anything else is not
/// statically known. The sign rules give `-0` exactly when both operands
/// are `-0`.
pub open spec fn spec_fold_add(a: JsNumber, b: JsNumber) -> Option<JsNumber> {
    match a {
        JsNumber::NaN => Some(JsNumber::NaN),
        JsNumber::PosInfinity => match b {
            JsNumber::NaN => Some(JsNumber::NaN),
            JsNumber::NegInfinity => Some(JsNumber::NaN),
            _ => Some(JsNumber::PosInfinity),
        },
        JsNumber::NegInfinity => match b {
            JsNumber::NaN => Some(JsNumber::NaN),
            JsNumber::PosInfinity => Some(JsNumber::NaN),
            _ => Some(JsNumber::NegInfinity),
        },
        JsNumber::Finite { neg: na, mant: ma, scale: sa } => match b {
            JsNumber::NaN => Some(JsNumber::NaN),
            JsNumber::PosInfinity => Some(JsNumber::PosInfinity),
            JsNumber::NegInfinity => Some(JsNumber::NegInfinity),
            JsNumber::Finite { neg: nb, mant: mb, scale: sb } => {
                if sa != 0 || sb != 0 || ma > 0x20_0000_0000_0000 || mb > 0x20_0000_0000_0000 {
                    None
                } else {
                    let v = spec_finite_int(na, ma) + spec_finite_int(nb, mb);
                    if v > 0x20_0000_0000_0000 || v < -0x20_0000_0000_0000 {
                        None
                    } else {
                        let both_neg_zero = na && nb && ma == 0 && mb == 0;
                        Some(
                            JsNumber::Finite {
                                neg: v < 0 || both_neg_zero,
                                mant: if v < 0 {
                                    (-v) as u64
                                } else {
                                    v as u64
                                },
                                scale: 0u32,
                            },
                        )
                    }
                }
            },
        },
    }
}

/// Folded subtraction: `a - b` is `a + (-b)`.
pub open spec fn spec_fold_sub(a: JsNumber, b: JsNumber) -> Option<JsNumber> {
    spec_fold_add(a, b.spec_negate())
}

/// Folded multiplication, under the same safe-integer restriction. The sign
/// is the exclusive or of the operands' signs, so a zero result keeps the
/// specification's signed zero; an infinity times zero is NaN.
pub open spec fn spec_fold_mul(a: JsNumber, b: JsNumber) -> Option<JsNumber> {
    match a {
        JsNumber::NaN => Some(JsNumber::NaN),
        JsNumber::PosInfinity => match b {
            JsNumber::NaN => Some(JsNumber::NaN),
            JsNumber::PosInfinity => Some(JsNumber::PosInfinity),
            JsNumber::NegInfinity => Some(JsNumber::NegInfinity),
            JsNumber::Finite { neg, mant, scale } => {
                if mant == 0 {
                    Some(JsNumber::NaN)
                } else if neg {
                    Some(JsNumber::NegInfinity)
                } else {
                    Some(JsNumber::PosInfinity)
                }
            },
        },
        JsNumber::NegInfinity => match b {
            JsNumber::NaN => Some(JsNumber::NaN),
            JsNumber::PosInfinity => Some(JsNumber::NegInfinity),
            JsNumber::NegInfinity => Some(JsNumber::PosInfinity),
            JsNumber::Finite { neg, mant, scale } => {
                if mant == 0 {
                    Some(JsNumber::NaN)
                } else if neg {
                    Some(JsNumber::PosInfinity)
                } else {
                    Some(JsNumber::NegInfinity)
                }
            },
        },
        JsNumber::Finite { neg: na, mant: ma, scale: sa } => match b {
            JsNumber::NaN => Some(JsNumber::NaN),
            JsNumber::PosInfinity => {
                if ma == 0 {
                    Some(JsNumber::NaN)
                } else if na {
                    Some(JsNumber::NegInfinity)
                } else {
                    Some(JsNumber::PosInfinity)
                }
            },
            JsNumber::NegInfinity => {
                if ma == 0 {
                    Some(JsNumber::NaN)
                } else if na {
                    Some(JsNumber::PosInfinity)
                } else {
                    Some(JsNumber::NegInfinity)
                }
            },
            JsNumber::Finite { neg: nb, mant: mb, scale: sb } => {
                if sa != 0 || sb != 0 {
                    None
                } else if (ma as int) * (mb as int) > 0x20_0000_0000_0000 {
                    None
                } else {
                    Some(JsNumber::Finite { neg: na != nb, mant: (ma * mb) as u64, scale: 0u32 })
                }
            },
        },
    }
}

pub fn fold_add(a: &JsNumber, b: &JsNumber) -> (r: Option<JsNumber>)
    ensures
        r == spec_fold_add(*a, *b),
{
    match a {
        JsNumber::NaN => Some(JsNumber::NaN),
        JsNumber::PosInfinity => match b {
            JsNumber::NaN => Some(JsNumber::NaN),
            JsNumber::NegInfinity => Some(JsNumber::NaN),
            _ => Some(JsNumber::PosInfinity),
        },
        JsNumber::NegInfinity => match b {
            JsNumber::NaN => Some(JsNumber::NaN),
            JsNumber::PosInfinity => Some(JsNumber::NaN),
            _ => Some(JsNumber::NegInfinity),
        },
        JsNumber::Finite { neg: na, mant: ma, scale: sa } => match b {
            JsNumber::NaN => Some(JsNumber::NaN),
            JsNumber::PosInfinity => Some(JsNumber::PosInfinity),
            JsNumber::NegInfinity => Some(JsNumber::NegInfinity),
            JsNumber::Finite { neg: nb, mant: mb, scale: sb } => {
                if *sa != 0 || *sb != 0 || *ma > 0x20_0000_0000_0000 || *mb > 0x20_0000_0000_0000 {
                    None
                } else {
                    let ia: i64 = if *na {
                        -(*ma as i64)
                    } else {
                        *ma as i64
                    };
                    let ib: i64 = if *nb {
                        -(*mb as i64)
                    } else {
                        *mb as i64
                    };
                    let v: i64 = ia + ib;
                    if v > 0x20_0000_0000_0000 || v < -0x20_0000_0000_0000 {
                        None
                    } else {
                        let both_neg_zero = *na && *nb && *ma == 0 && *mb == 0;
                        Some(
                            JsNumber::Finite {
                                neg: v < 0 || both_neg_zero,
                                mant: if v < 0 {
                                    (-v) as u64
                                } else {
                                    v as u64
                                },
                                scale: 0,
                            },
                        )
                    }
                }
            },
        },
    }
}

pub fn fold_sub(a: &JsNumber, b: &JsNumber) -> (r: Option<JsNumber>)
    ensures
        r == spec_fold_sub(*a, *b),
{
    let nb = b.negate();
    fold_add(a, &nb)
}

pub fn fold_mul(a: &JsNumber, b: &JsNumber) -> (r: Option<JsNumber>)
    ensures
        r == spec_fold_mul(*a, *b),
{
    match a {
        JsNumber::NaN => Some(JsNumber::NaN),
        JsNumber::PosInfinity => match b {
            JsNumber::NaN => Some(JsNumber::NaN),
            JsNumber::PosInfinity => Some(JsNumber::PosInfinity),
            JsNumber::NegInfinity => Some(JsNumber::NegInfinity),
            JsNumber::Finite { neg, mant, scale } => {
                if *mant == 0 {
                    Some(JsNumber::NaN)
                } else if *neg {
                    Some(JsNumber::NegInfinity)
                } else {
                    Some(JsNumber::PosInfinity)
                }
            },
        },
        JsNumber::NegInfinity => match b {
            JsNumber::NaN => Some(JsNumber::NaN),
            JsNumber::PosInfinity => Some(JsNumber::NegInfinity),
            JsNumber::NegInfinity => Some(JsNumber::PosInfinity),
            JsNumber::Finite { neg, mant, scale } => {
                if *mant == 0 {
                    Some(JsNumber::NaN)
                } else if *neg {
                    Some(JsNumber::PosInfinity)
                } else {
                    Some(JsNumber::NegInfinity)
                }
            },
        },
        JsNumber::Finite { neg: na, mant: ma, scale: sa } => match b {
            JsNumber::NaN => Some(JsNumber::NaN),
            JsNumber::PosInfinity => {
                if *ma == 0 {
                    Some(JsNumber::NaN)
                } else if *na {
                    Some(JsNumber::NegInfinity)
                } else {
                    Some(JsNumber::PosInfinity)
                }
            },
            JsNumber::NegInfinity => {
                if *ma == 0 {
                    Some(JsNumber::NaN)
                } else if *na {
                    Some(JsNumber::PosInfinity)
                } else {
                    Some(JsNumber::NegInfinity)
                }
            },
            JsNumber::Finite { neg: nb, mant: mb, scale: sb } => {
                if *sa != 0 || *sb != 0 {
                    None
                } else {
                    proof {
                        assert((*ma as int) * (*mb as int) <= (u64::MAX as int) * (
                        u64::MAX as int)) by (nonlinear_arith)
                            requires
                                *ma <= u64::MAX,
                                *mb <= u64::MAX,
                        ;
                    }
                    let p: u128 = (*ma as u128) * (*mb as u128);
                    if p > 0x20_0000_0000_0000 {
                        None
                    } else {
                        Some(JsNumber::Finite { neg: *na != *nb, mant: p as u64, scale: 0 })
                    }
                }
            },
        },
    }
}

/// The model of an executable evaluation result.
pub open spec fn spec_opt_value_view(r: Option<JsValue>) -> Option<JsValueModel> {
    match r {
        Some(v) => Some(v@),
        None => None,
    }
}

/// Static evaluation of a node: literals map to their values, the
/// identifier `undefined` to the undefined value, unary plus and minus
/// apply ToNumber and negation, and binary `+`, `-`, `*` fold on evaluable
/// operands (string concatenation for `+` on two strings). Every other
/// node is not statically known.
pub open spec fn spec_eval(t: SyntaxTree, i: int) -> Option<JsValueModel>
    decreases t.nodes@.len() - i,
        when t.wf() && 0 <= i < t.nodes@.len()
{
    let node = t.nodes@[i];
    match node.kind {
        NodeKind::NumberLit(n) => Some(JsValueModel::Num(n)),
        NodeKind::StringLit(s) => Some(JsValueModel::Str(s@)),
        NodeKind::BooleanLit(b) => Some(JsValueModel::Bool(b)),
        NodeKind::NullLit => Some(JsValueModel::Null),
        NodeKind::BigIntLit(b) => Some(JsValueModel::BigInt(b)),
        NodeKind::Ident(name) => {
            if name@ == spec_undefined_word() {
                Some(JsValueModel::Undefined)
            } else {
                None
            }
        },
        NodeKind::UnaryPlus => {
            if node.children@.len() == 1 {
                match spec_eval(t, node.children@[0] as int) {
                    Some(v) => match spec_to_number_value(v) {
                        Some(n) => Some(JsValueModel::Num(n)),
                        None => None,
                    },
                    None => None,
                }
            } else {
                None
            }
        },
        NodeKind::UnaryMinus => {
            if node.children@.len() == 1 {
                match spec_eval(t, node.children@[0] as int) {
                    Some(v) => match spec_to_number_value(v) {
                        Some(n) => Some(JsValueModel::Num(n.spec_negate())),
                        None => None,
                    },
                    None => None,
                }
            } else {
                None
            }
        },
        NodeKind::BinaryAdd => {
            if node.children@.len() == 2 {
                match spec_eval(t, node.children@[0] as int) {
                    Some(va) => match spec_eval(t, node.children@[1] as int) {
                        Some(vb) => spec_add_values(va, vb),
                        None => None,
                    },
                    None => None,
                }
            } else {
                None
            }
        },
        NodeKind::BinarySub => {
            if node.children@.len() == 2 {
                match spec_eval(t, node.children@[0] as int) {
                    Some(va) => match spec_eval(t, node.children@[1] as int) {
                        Some(vb) => spec_numeric_binary(va, vb, false),
                        None => None,
                    },
                    None => None,
                }
            } else {
                None
            }
        },
        NodeKind::BinaryMul => {
            if node.children@.len() == 2 {
                match spec_eval(t, node.children@[0] as int) {
                    Some(va) => match spec_eval(t, node.children@[1] as int) {
                        Some(vb) => spec_numeric_binary(va, vb, true),
                        None => None,
                    },
                    None => None,
                }
            } else {
                None
            }
        },
        _ => None,
    }
}

/// The `+` operator on two statically known values: concatenation when
/// both are strings, numeric addition when both convert to numbers;
/// mixtures are not folded.
pub open spec fn spec_add_values(a: JsValueModel, b: JsValueModel) -> Option<JsValueModel> {
    match a {
        JsValueModel::Str(sa) => match b {
            JsValueModel::Str(sb) => Some(JsValueModel::Str(sa + sb)),
            _ => None,
        },
        _ => match b {
            JsValueModel::Str(_) => None,
            _ => match spec_to_number_value(a) {
                Some(na) => match spec_to_number_value(b) {
                    Some(nb) => match spec_fold_add(na, nb) {
                        Some(n) => Some(JsValueModel::Num(n)),
                        None => None,
                    },
                    None => None,
                },
                None => None,
            },
        },
    }
}

/// `-` or `*` on two statically known values, through ToNumber.
pub open spec fn spec_numeric_binary(a: JsValueModel, b: JsValueModel, mul: bool) -> Option<
    JsValueModel,
> {
    match spec_to_number_value(a) {
        Some(na) => match spec_to_number_value(b) {
            Some(nb) => match (if mul {
                spec_fold_mul(na, nb)
            } else {
                spec_fold_sub(na, nb)
            }) {
                Some(n) => Some(JsValueModel::Num(n)),
                None => None,
            },
            None => None,
        },
        None => None,
    }
}

/// Executable static evaluation.
pub fn eval_node(t: &SyntaxTree, i: usize) -> (r: Option<JsValue>)
    requires
        t.wf(),
        i < t.nodes@.len(),
    ensures
        spec_opt_value_view(r) == spec_eval(*t, i as int),
    decreases t.nodes@.len() - i,
{
    let node = &t.nodes[i];
    match &node.kind {
        NodeKind::NumberLit(n) => Some(JsValue::Num(*n)),
        NodeKind::StringLit(s) => Some(JsValue::Str(crate::text::str_copy(s))),
        NodeKind::BooleanLit(b) => Some(JsValue::Bool(*b)),
        NodeKind::NullLit => Some(JsValue::Null),
        NodeKind::BigIntLit(b) => Some(JsValue::BigInt(*b)),
        NodeKind::Ident(name) => {
            let undef = undefined_units();
            if crate::text::str_eq(name, &undef) {
                Some(JsValue::Undefined)
            } else {
                None
            }
        },
        NodeKind::UnaryPlus => {
            if node.children.len() == 1 {
                let c = node.children[0];
                assert(i < c < t.nodes@.len());
                match eval_node(t, c) {
                    Some(v) => match to_number_value(&v) {
                        Some(n) => Some(JsValue::Num(n)),
                        None => None,
                    },
                    None => None,
                }
            } else {
                None
            }
        },
        NodeKind::UnaryMinus => {
            if node.children.len() == 1 {
                let c = node.children[0];
                assert(i < c < t.nodes@.len());
                match eval_node(t, c) {
                    Some(v) => match to_number_value(&v) {
                        Some(n) => Some(JsValue::Num(n.negate())),
                        None => None,
                    },
                    None => None,
                }
            } else {
                None
            }
        },
        NodeKind::BinaryAdd => {
            if node.children.len() == 2 {
                let c0 = node.children[0];
                let c1 = node.children[1];
                assert(i < c0 < t.nodes@.len());
                assert(i < c1 < t.nodes@.len());
                match eval_node(t, c0) {
                    Some(va) => match eval_node(t, c1) {
                        Some(vb) => add_values(&va, &vb),
                        None => None,
                    },
                    None => None,
                }
            } else {
                None
            }
        },
        NodeKind::BinarySub => {
            if node.children.len() == 2 {
                let c0 = node.children[0];
                let c1 = node.children[1];
                assert(i < c0 < t.nodes@.len());
                assert(i < c1 < t.nodes@.len());
                match eval_node(t, c0) {
                    Some(va) => match eval_node(t, c1) {
                        Some(vb) => numeric_binary(&va, &vb, false),
                        None => None,
                    },
                    None => None,
                }
            } else {
                None
            }
        },
        NodeKind::BinaryMul => {
            if node.children.len() == 2 {
                let c0 = node.children[0];
                let c1 = node.children[1];
                assert(i < c0 < t.nodes@.len());
                assert(i < c1 < t.nodes@.len());
                match eval_node(t, c0) {
                    Some(va) => match eval_node(t, c1) {
                        Some(vb) => numeric_binary(&va, &vb, true),
                        None => None,
                    },
                    None => None,
                }
            } else {
                None
            }
        },
        _ => None,
    }
}

fn add_values(a: &JsValue, b: &JsValue) -> (r: Option<JsValue>)
    ensures
        spec_opt_value_view(r) == spec_add_values(a@, b@),
{
    match a {
        JsValue::Str(sa) => match b {
            JsValue::Str(sb) => Some(JsValue::Str(str_concat(sa, sb))),
            _ => None,
        },
        _ => match b {
            JsValue::Str(_) => None,
            _ => match to_number_value(a) {
                Some(na) => match to_number_value(b) {
                    Some(nb) => match fold_add(&na, &nb) {
                        Some(n) => Some(JsValue::Num(n)),
                        None => None,
                    },
                    None => None,
                },
                None => None,
            },
        },
    }
}

fn numeric_binary(a: &JsValue, b: &JsValue, mul: bool) -> (r: Option<JsValue>)
    ensures
        spec_opt_value_view(r) == spec_numeric_binary(a@, b@, mul),
{
    match to_number_value(a) {
        Some(na) => match to_number_value(b) {
            Some(nb) => {
                let folded = if mul {
                    fold_mul(&na, &nb)
                } else {
                    fold_sub(&na, &nb)
                };
                match folded {
                    Some(n) => Some(JsValue::Num(n)),
                    None => None,
                }
            },
            None => None,
        },
        None => None,
    }
}

fn undefined_units() -> (r: crate::text::JsString)
    ensures
        r@ == spec_undefined_word(),
{
    let mut out: crate::text::JsString = Vec::new();
    out.push(0x75);
    out.push(0x6E);
    out.push(0x64);
    out.push(0x65);
    out.push(0x66);
    out.push(0x69);
    out.push(0x6E);
    out.push(0x65);
    out.push(0x64);
    proof {
        assert(out@ =~= spec_undefined_word());
    }
    out
}

} // verus!
