use vstd::prelude::*;
use crate::ast::{NodeKind, SyntaxTree};
use crate::text::{str_copy, JsString};

verus! {

/// The deep view of a list of names.
pub open spec fn spec_names_view(v: Seq<JsString>) -> Seq<Seq<u16>> {
    v.map_values(|x: JsString| x@)
}

/// The specification's BoundNames: the names a declaration or pattern node
/// binds, in declaration order, duplicates preserved. Nested destructuring
/// patterns, default-value wrappers and rest elements are walked; a
/// function or class contributes its own name; nodes that bind nothing
/// contribute nothing.
pub open spec fn spec_bound_names(t: SyntaxTree, i: int) -> Seq<Seq<u16>>
    decreases t.nodes@.len() - i, t.nodes@[i].children@.len() + 1,
        when t.wf() && 0 <= i < t.nodes@.len()
{
    let node = t.nodes@[i];
    match node.kind {
        NodeKind::BindingIdent(n) => seq![n@],
        NodeKind::ImportBinding(n) => seq![n@],
        NodeKind::ObjectPattern => spec_bound_names_children(t, i, 0),
        NodeKind::ArrayPattern => spec_bound_names_children(t, i, 0),
        NodeKind::FormalParameters => spec_bound_names_children(t, i, 0),
        NodeKind::ObjectPatternProp => spec_bound_names_first_child(t, i),
        NodeKind::RestElement => spec_bound_names_first_child(t, i),
        NodeKind::AssignmentPattern => spec_bound_names_first_child(t, i),
        NodeKind::VariableDeclarator => spec_bound_names_first_child(t, i),
        NodeKind::CatchClause => spec_bound_names_first_child(t, i),
        NodeKind::Function { name, is_arrow, expression_body } => match name {
            Some(n) => seq![n@],
            None => Seq::empty(),
        },
        NodeKind::Class { name, has_super } => match name {
            Some(n) => seq![n@],
            None => Seq::empty(),
        },
        _ => Seq::empty(),
    }
}

/// The bound names of a node's first child, where the other children (a
/// default value, an initializer, a body) bind nothing at this node.
pub open spec fn spec_bound_names_first_child(t: SyntaxTree, i: int) -> Seq<Seq<u16>>
    decreases t.nodes@.len() - i, t.nodes@[i].children@.len(),
        when t.wf() && 0 <= i < t.nodes@.len()
{
    if t.nodes@[i].children@.len() >= 1 {
        spec_bound_names(t, t.nodes@[i].children@[0] as int)
    } else {
        Seq::empty()
    }
}

/// The concatenation of the bound names of the children from position `k`.
pub open spec fn spec_bound_names_children(t: SyntaxTree, i: int, k: int) -> Seq<Seq<u16>>
    decreases t.nodes@.len() - i, t.nodes@[i].children@.len() - k,
        when t.wf() && 0 <= i < t.nodes@.len() && 0 <= k
{
    if k >= t.nodes@[i].children@.len() {
        Seq::empty()
    } else {
        spec_bound_names(t, t.nodes@[i].children@[k] as int) + spec_bound_names_children(
            t,
            i,
            k + 1,
        )
    }
}

pub proof fn lemma_names_view_add(a: Seq<JsString>, b: Seq<JsString>)
    ensures
        spec_names_view(a + b) == spec_names_view(a) + spec_names_view(b),
{
    assert(spec_names_view(a + b) =~= spec_names_view(a) + spec_names_view(b));
}

/// Executable BoundNames.
pub fn bound_names(t: &SyntaxTree, i: usize) -> (r: Vec<JsString>)
    requires
        t.wf(),
        i < t.nodes@.len(),
    ensures
        spec_names_view(r@) == spec_bound_names(*t, i as int),
    decreases t.nodes@.len() - i, t.nodes@[i as int].children@.len() + 1,
{
    let node = &t.nodes[i];
    match &node.kind {
        NodeKind::BindingIdent(n) => {
            let mut out: Vec<JsString> = Vec::new();
            out.push(str_copy(n));
            proof {
                assert(spec_names_view(out@) =~= spec_bound_names(*t, i as int));
            }
            out
        },
        NodeKind::ImportBinding(n) => {
            let mut out: Vec<JsString> = Vec::new();
            out.push(str_copy(n));
            proof {
                assert(spec_names_view(out@) =~= spec_bound_names(*t, i as int));
            }
            out
        },
        NodeKind::ObjectPattern => bound_names_children(t, i, 0),
        NodeKind::ArrayPattern => bound_names_children(t, i, 0),
        NodeKind::FormalParameters => bound_names_children(t, i, 0),
        NodeKind::ObjectPatternProp => bound_names_first_child(t, i),
        NodeKind::RestElement => bound_names_first_child(t, i),
        NodeKind::AssignmentPattern => bound_names_first_child(t, i),
        NodeKind::VariableDeclarator => bound_names_first_child(t, i),
        NodeKind::CatchClause => bound_names_first_child(t, i),
        NodeKind::Function { name, is_arrow, expression_body } => match name {
            Some(n) => {
                let mut out: Vec<JsString> = Vec::new();
                out.push(str_copy(n));
                proof {
                    assert(spec_names_view(out@) =~= spec_bound_names(*t, i as int));
                }
                out
            },
            None => {
                let out: Vec<JsString> = Vec::new();
                proof {
                    assert(spec_names_view(out@) =~= spec_bound_names(*t, i as int));
                }
                out
            },
        },
        NodeKind::Class { name, has_super } => match name {
            Some(n) => {
                let mut out: Vec<JsString> = Vec::new();
                out.push(str_copy(n));
                proof {
                    assert(spec_names_view(out@) =~= spec_bound_names(*t, i as int));
                }
                out
            },
            None => {
                let out: Vec<JsString> = Vec::new();
                proof {
                    assert(spec_names_view(out@) =~= spec_bound_names(*t, i as int));
                }
                out
            },
        },
        _ => {
            let out: Vec<JsString> = Vec::new();
            proof {
                assert(spec_names_view(out@) =~= spec_bound_names(*t, i as int));
            }
            out
        },
    }
}

fn bound_names_first_child(t: &SyntaxTree, i: usize) -> (r: Vec<JsString>)
    requires
        t.wf(),
        i < t.nodes@.len(),
    ensures
        spec_names_view(r@) == spec_bound_names_first_child(*t, i as int),
    decreases t.nodes@.len() - i, t.nodes@[i as int].children@.len(),
{
    let node = &t.nodes[i];
    if node.children.len() >= 1 {
        let c = node.children[0];
        assert(i < c < t.nodes@.len());
        bound_names(t, c)
    } else {
        let out: Vec<JsString> = Vec::new();
        proof {
            assert(spec_names_view(out@) =~= Seq::<Seq<u16>>::empty());
        }
        out
    }
}

fn bound_names_children(t: &SyntaxTree, i: usize, k: usize) -> (r: Vec<JsString>)
    requires
        t.wf(),
        i < t.nodes@.len(),
    ensures
        spec_names_view(r@) == spec_bound_names_children(*t, i as int, k as int),
    decreases t.nodes@.len() - i, t.nodes@[i as int].children@.len() - k,
{
    let node = &t.nodes[i];
    if k >= node.children.len() {
        let out: Vec<JsString> = Vec::new();
        proof {
            assert(spec_names_view(out@) =~= Seq::<Seq<u16>>::empty());
        }
        out
    } else {
        let c = node.children[k];
        assert(i < c < t.nodes@.len());
        let mut first = bound_names(t, c);
        let mut rest = bound_names_children(t, i, k + 1);
        let ghost a = first@;
        let ghost b = rest@;
        first.append(&mut rest);
        proof {
            lemma_names_view_add(a, b);
        }
        first
    }
}

} // verus!
