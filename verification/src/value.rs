use vstd::prelude::*;
use crate::number::JsNumber;
use crate::big_int::JsBigInt;
use crate::text::{str_copy, JsString};
use crate::to_number::spec_to_number_of_string;
use crate::to_number::to_number_of_string;
use crate::string_to_big_int::{spec_string_to_big_int, string_to_big_int};
use crate::to_string::{
    spec_render_number, spec_render_big_int, render_number, render_big_int,
};

verus! {

/// A statically known ECMAScript value: the subset of the language's values
/// a static analysis can see in literals and folded expressions.
#[derive(Debug)]
pub enum JsValue {
    Num(JsNumber),
    Str(JsString),
    Bool(bool),
    Null,
    Undefined,
    BigInt(JsBigInt),
}

/// The mathematical model of a statically known value: strings are
/// sequences of code units.
pub enum JsValueModel {
    Num(JsNumber),
    Str(Seq<u16>),
    Bool(bool),
    Null,
    Undefined,
    BigInt(JsBigInt),
}

impl View for JsValue {
    type V = JsValueModel;

    open spec fn view(&self) -> JsValueModel {
        match self {
            JsValue::Num(n) => JsValueModel::Num(*n),
            JsValue::Str(s) => JsValueModel::Str(s@),
            JsValue::Bool(b) => JsValueModel::Bool(*b),
            JsValue::Null => JsValueModel::Null,
            JsValue::Undefined => JsValueModel::Undefined,
            JsValue::BigInt(b) => JsValueModel::BigInt(*b),
        }
    }
}

/// The specification's ToBoolean, total on statically known values: exactly
/// `false`, `+0`, `-0`, `NaN`, the empty string, null, undefined and `0n`
/// are falsy.
pub open spec fn spec_to_boolean_value(v: JsValueModel) -> bool {
    match v {
        JsValueModel::Num(n) => match n {
            JsNumber::NaN => false,
            JsNumber::Finite { neg, mant, scale } => mant != 0,
            _ => true,
        },
        JsValueModel::Str(s) => s.len() != 0,
        JsValueModel::Bool(b) => b,
        JsValueModel::Null => false,
        JsValueModel::Undefined => false,
        JsValueModel::BigInt(b) => b.mag != 0,
    }
}

pub fn to_boolean_value(v: &JsValue) -> (r: bool)
    ensures
        r == spec_to_boolean_value(v@),
{
    match v {
        JsValue::Num(n) => match n {
            JsNumber::NaN => false,
            JsNumber::Finite { neg, mant, scale } => *mant != 0,
            _ => true,
        },
        JsValue::Str(s) => s.len() != 0,
        JsValue::Bool(b) => *b,
        JsValue::Null => false,
        JsValue::Undefined => false,
        JsValue::BigInt(b) => b.mag != 0,
    }
}

/// The specification's ToNumber on a statically known value: booleans map
/// to 1 and 0, null to +0, undefined to NaN, strings through the numeric
/// grammar; a big integer would raise a TypeError at run time, so it is not
/// statically known as a number.
pub open spec fn spec_to_number_value(v: JsValueModel) -> Option<JsNumber> {
    match v {
        JsValueModel::Num(n) => Some(n),
        JsValueModel::Str(s) => spec_to_number_of_string(s),
        JsValueModel::Bool(b) => Some(
            JsNumber::Finite {
                neg: false,
                mant: if b {
                    1u64
                } else {
                    0u64
                },
                scale: 0u32,
            },
        ),
        JsValueModel::Null => Some(JsNumber::Finite { neg: false, mant: 0u64, scale: 0u32 }),
        JsValueModel::Undefined => Some(JsNumber::NaN),
        JsValueModel::BigInt(_) => None,
    }
}

pub fn to_number_value(v: &JsValue) -> (r: Option<JsNumber>)
    ensures
        r == spec_to_number_value(v@),
{
    match v {
        JsValue::Num(n) => Some(*n),
        JsValue::Str(s) => to_number_of_string(s),
        JsValue::Bool(b) => Some(
            JsNumber::Finite {
                neg: false,
                mant: if *b {
                    1
                } else {
                    0
                },
                scale: 0,
            },
        ),
        JsValue::Null => Some(JsNumber::Finite { neg: false, mant: 0, scale: 0 }),
        JsValue::Undefined => Some(JsNumber::NaN),
        JsValue::BigInt(_) => None,
    }
}

/// The specification's ToBigInt on a statically known value: big integers
/// pass through, booleans map to 1n and 0n, integral numbers convert
/// exactly, fractional and non-finite numbers are rejected, strings go
/// through StringToBigInt, and null and undefined would raise a TypeError.
pub open spec fn spec_to_big_int_value(v: JsValueModel) -> Option<JsBigInt> {
    match v {
        JsValueModel::BigInt(b) => Some(b),
        JsValueModel::Bool(b) => Some(
            JsBigInt {
                neg: false,
                mag: if b {
                    1u128
                } else {
                    0u128
                },
            },
        ),
        JsValueModel::Num(n) => match n {
            JsNumber::Finite { neg, mant, scale } => {
                if scale == 0 {
                    Some(JsBigInt { neg: neg && mant != 0, mag: mant as u128 })
                } else {
                    None
                }
            },
            _ => None,
        },
        JsValueModel::Str(s) => spec_string_to_big_int(s),
        JsValueModel::Null => None,
        JsValueModel::Undefined => None,
    }
}

pub fn to_big_int_value(v: &JsValue) -> (r: Option<JsBigInt>)
    ensures
        r == spec_to_big_int_value(v@),
{
    match v {
        JsValue::BigInt(b) => Some(*b),
        JsValue::Bool(b) => Some(
            JsBigInt {
                neg: false,
                mag: if *b {
                    1
                } else {
                    0
                },
            },
        ),
        JsValue::Num(n) => match n {
            JsNumber::Finite { neg, mant, scale } => {
                if *scale == 0 {
                    Some(JsBigInt { neg: *neg && *mant != 0, mag: *mant as u128 })
                } else {
                    None
                }
            },
            _ => None,
        },
        JsValue::Str(s) => string_to_big_int(s),
        JsValue::Null => None,
        JsValue::Undefined => None,
    }
}

/// The code units of `true`, `false`, `null` and `undefined`.
pub open spec fn spec_true_word() -> Seq<u16> {
    seq![0x74u16, 0x72u16, 0x75u16, 0x65u16]
}

pub open spec fn spec_false_word() -> Seq<u16> {
    seq![0x66u16, 0x61u16, 0x6Cu16, 0x73u16, 0x65u16]
}

pub open spec fn spec_null_word() -> Seq<u16> {
    seq![0x6Eu16, 0x75u16, 0x6Cu16, 0x6Cu16]
}

pub open spec fn spec_undefined_word() -> Seq<u16> {
    seq![0x75u16, 0x6Eu16, 0x64u16, 0x65u16, 0x66u16, 0x69u16, 0x6Eu16, 0x65u16, 0x64u16]
}

/// The specification's ToString on a statically known value.
pub open spec fn spec_to_js_string_value(v: JsValueModel) -> Seq<u16> {
    match v {
        JsValueModel::Str(s) => s,
        JsValueModel::Num(n) => spec_render_number(n),
        JsValueModel::Bool(b) => if b {
            spec_true_word()
        } else {
            spec_false_word()
        },
        JsValueModel::Null => spec_null_word(),
        JsValueModel::Undefined => spec_undefined_word(),
        JsValueModel::BigInt(b) => spec_render_big_int(b),
    }
}

pub fn to_js_string_value(v: &JsValue) -> (r: JsString)
    ensures
        r@ == spec_to_js_string_value(v@),
{
    match v {
        JsValue::Str(s) => str_copy(s),
        JsValue::Num(n) => render_number(n),
        JsValue::Bool(b) => {
            let mut out: JsString = Vec::new();
            if *b {
                out.push(0x74);
                out.push(0x72);
                out.push(0x75);
                out.push(0x65);
                proof {
                    assert(out@ =~= spec_true_word());
                }
            } else {
                out.push(0x66);
                out.push(0x61);
                out.push(0x6C);
                out.push(0x73);
                out.push(0x65);
                proof {
                    assert(out@ =~= spec_false_word());
                }
            }
            out
        },
        JsValue::Null => {
            let mut out: JsString = Vec::new();
            out.push(0x6E);
            out.push(0x75);
            out.push(0x6C);
            out.push(0x6C);
            proof {
                assert(out@ =~= spec_null_word());
            }
            out
        },
        JsValue::Undefined => {
            let mut out: JsString = Vec::new();
            out.push(0x75);
            out.push(0x6E);
            out.push(0x64);
            out.push(0x65);
            out.push(0x66);
            out.push(0x69);
            out.push(0x6E);
            out.push(0x65);
            out.push(0x64);
            proof {
                assert(out@ =~= spec_undefined_word());
            }
            out
        },
        JsValue::BigInt(b) => render_big_int(b),
    }
}

} // verus!
