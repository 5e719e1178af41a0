use vstd::prelude::*;
use crate::ast::SyntaxTree;
use crate::eval::{eval_node, spec_eval};
use crate::value::{spec_to_boolean_value, to_boolean_value};

verus! {

/// The specification's ToBoolean of a node: `None` where the node is not
/// statically evaluable — an unknown boolean is never guessed.
pub open spec fn spec_to_boolean(t: SyntaxTree, i: int) -> Option<bool> {
    match spec_eval(t, i) {
        Some(v) => Some(spec_to_boolean_value(v)),
        None => None,
    }
}

pub fn to_boolean(t: &SyntaxTree, i: usize) -> (r: Option<bool>)
    requires
        t.wf(),
        i < t.nodes@.len(),
    ensures
        r == spec_to_boolean(*t, i as int),
{
    match eval_node(t, i) {
        Some(v) => Some(to_boolean_value(&v)),
        None => None,
    }
}

} // verus!
