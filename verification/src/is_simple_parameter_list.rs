use vstd::prelude::*;
use crate::ast::{NodeKind, SyntaxTree};

verus! {

/// The specification's IsSimpleParameterList: true exactly when every
/// formal parameter is a plain binding identifier — no default value, no
/// destructuring pattern, no rest element.
pub open spec fn spec_is_simple_parameter_list(t: SyntaxTree, i: int) -> bool {
    &&& t.nodes@[i].kind is FormalParameters
    &&& forall|k: int|
        0 <= k < t.nodes@[i].children@.len() ==> t.nodes@[(
        #[trigger] t.nodes@[i].children@[k]) as int].kind is BindingIdent
}

pub fn is_simple_parameter_list(t: &SyntaxTree, i: usize) -> (r: bool)
    requires
        t.wf(),
        i < t.nodes@.len(),
    ensures
        r == spec_is_simple_parameter_list(*t, i as int),
{
    let node = &t.nodes[i];
    match &node.kind {
        NodeKind::FormalParameters => {
            let n = node.children.len();
            let mut k: usize = 0;
            while k < n
                invariant
                    t.wf(),
                    i < t.nodes@.len(),
                    n == t.nodes@[i as int].children@.len(),
                    t.nodes@[i as int].kind is FormalParameters,
                    0 <= k <= n,
                    forall|q: int|
                        0 <= q < k ==> t.nodes@[(
                        #[trigger] t.nodes@[i as int].children@[q]) as int].kind
                            is BindingIdent,
                decreases n - k,
            {
                let c = t.nodes[i].children[k];
                assert(i < c < t.nodes@.len());
                match &t.nodes[c].kind {
                    NodeKind::BindingIdent(_) => {},
                    _ => {
                        return false;
                    },
                }
                k = k + 1;
            }
            true
        },
        _ => false,
    }
}

/// The parameter at index `c` carries a default value, destructuring or a
/// rest marker.
pub open spec fn spec_is_complex_param(t: SyntaxTree, c: int) -> bool {
    ||| t.nodes@[c].kind is AssignmentPattern
    ||| t.nodes@[c].kind is ObjectPattern
    ||| t.nodes@[c].kind is ArrayPattern
    ||| t.nodes@[c].kind is RestElement
}

/// A parameter list holding a default value, a destructuring pattern or a
/// rest element at any position is not simple.
pub proof fn lemma_non_simple_parameter(t: SyntaxTree, i: int, k: int)
    requires
        t.wf(),
        0 <= i < t.nodes@.len(),
        0 <= k < t.nodes@[i].children@.len(),
        spec_is_complex_param(t, t.nodes@[i].children@[k] as int),
    ensures
        !spec_is_simple_parameter_list(t, i),
{
    let c = t.nodes@[i].children@[k] as int;
    assert(!(t.nodes@[c].kind is BindingIdent));
}

} // verus!
