use vstd::prelude::*;
use crate::ast::SyntaxTree;
use crate::big_int::JsBigInt;
use crate::eval::{eval_node, spec_eval};
use crate::value::{spec_to_big_int_value, to_big_int_value};

verus! {

/// The specification's ToBigInt of a node: `None` both where the node is
/// not statically evaluable and where the value has no big-integer
/// conversion (fractional or non-finite numbers, malformed strings, null,
/// undefined).
pub open spec fn spec_to_big_int(t: SyntaxTree, i: int) -> Option<JsBigInt> {
    match spec_eval(t, i) {
        Some(v) => spec_to_big_int_value(v),
        None => None,
    }
}

pub fn to_big_int(t: &SyntaxTree, i: usize) -> (r: Option<JsBigInt>)
    requires
        t.wf(),
        i < t.nodes@.len(),
    ensures
        r == spec_to_big_int(*t, i as int),
{
    match eval_node(t, i) {
        Some(v) => to_big_int_value(&v),
        None => None,
    }
}

} // verus!
