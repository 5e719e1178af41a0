use vstd::prelude::*;
use crate::ast::{NodeKind, SyntaxTree};
use crate::bound_names::spec_names_view;
use crate::text::{str_copy, JsString};

verus! {

/// The specification's PrivateBoundIdentifiers: the `#names` declared by
/// the members of a class body, in declaration order.
pub open spec fn spec_private_bound_identifiers(t: SyntaxTree, i: int) -> Seq<Seq<u16>>
    decreases t.nodes@.len() - i, 1nat,
        when t.wf() && 0 <= i < t.nodes@.len()
{
    match t.nodes@[i].kind {
        NodeKind::Class { name, has_super } => {
            let b: int = if has_super {
                1
            } else {
                0
            };
            if b < t.nodes@[i].children@.len() {
                spec_private_of_body(t, t.nodes@[i].children@[b] as int)
            } else {
                Seq::empty()
            }
        },
        NodeKind::ClassBody => spec_private_members(t, i, 0),
        _ => Seq::empty(),
    }
}

pub open spec fn spec_private_of_body(t: SyntaxTree, b: int) -> Seq<Seq<u16>>
    decreases t.nodes@.len() - b, 1nat,
        when t.wf() && 0 <= b < t.nodes@.len()
{
    if t.nodes@[b].kind is ClassBody {
        spec_private_members(t, b, 0)
    } else {
        Seq::empty()
    }
}

/// The private name a single member declares, if any.
pub open spec fn spec_private_of_member(t: SyntaxTree, m: int) -> Seq<Seq<u16>>
    decreases t.nodes@.len() - m, 0nat,
        when t.wf() && 0 <= m < t.nodes@.len()
{
    let is_member = t.nodes@[m].kind is MethodDefinition || t.nodes@[m].kind
        is PropertyDefinition;
    if is_member && t.nodes@[m].children@.len() >= 1 {
        match t.nodes@[t.nodes@[m].children@[0] as int].kind {
            NodeKind::PrivateIdent(n) => seq![n@],
            _ => Seq::empty(),
        }
    } else {
        Seq::empty()
    }
}

pub open spec fn spec_private_members(t: SyntaxTree, b: int, k: int) -> Seq<Seq<u16>>
    decreases t.nodes@.len() - b, t.nodes@[b].children@.len() - k,
        when t.wf() && 0 <= b < t.nodes@.len() && 0 <= k
{
    if k >= t.nodes@[b].children@.len() {
        Seq::empty()
    } else {
        spec_private_of_member(t, t.nodes@[b].children@[k] as int) + spec_private_members(
            t,
            b,
            k + 1,
        )
    }
}

/// Executable PrivateBoundIdentifiers.
pub fn private_bound_identifiers(t: &SyntaxTree, i: usize) -> (r: Vec<JsString>)
    requires
        t.wf(),
        i < t.nodes@.len(),
    ensures
        spec_names_view(r@) == spec_private_bound_identifiers(*t, i as int),
{
    let node = &t.nodes[i];
    match &node.kind {
        NodeKind::Class { name, has_super } => {
            let b: usize = if *has_super {
                1
            } else {
                0
            };
            if b < node.children.len() {
                let body = node.children[b];
                assert(i < body < t.nodes@.len());
                let r = private_of_body(t, body);
                r
            } else {
                let out: Vec<JsString> = Vec::new();
                proof {
                    assert(spec_names_view(out@) =~= Seq::<Seq<u16>>::empty());
                }
                out
            }
        },
        NodeKind::ClassBody => private_members(t, i, 0),
        _ => {
            let out: Vec<JsString> = Vec::new();
            proof {
                assert(spec_names_view(out@) =~= Seq::<Seq<u16>>::empty());
            }
            out
        },
    }
}

fn private_of_body(t: &SyntaxTree, b: usize) -> (r: Vec<JsString>)
    requires
        t.wf(),
        b < t.nodes@.len(),
    ensures
        spec_names_view(r@) == spec_private_of_body(*t, b as int),
{
    match &t.nodes[b].kind {
        NodeKind::ClassBody => private_members(t, b, 0),
        _ => {
            let out: Vec<JsString> = Vec::new();
            proof {
                assert(spec_names_view(out@) =~= Seq::<Seq<u16>>::empty());
            }
            out
        },
    }
}

fn private_members(t: &SyntaxTree, b: usize, k: usize) -> (r: Vec<JsString>)
    requires
        t.wf(),
        b < t.nodes@.len(),
    ensures
        spec_names_view(r@) == spec_private_members(*t, b as int, k as int),
    decreases t.nodes@[b as int].children@.len() - k,
{
    let node = &t.nodes[b];
    if k >= node.children.len() {
        let out: Vec<JsString> = Vec::new();
        proof {
            assert(spec_names_view(out@) =~= Seq::<Seq<u16>>::empty());
        }
        out
    } else {
        let m = node.children[k];
        assert(b < m < t.nodes@.len());
        let mut first: Vec<JsString> = Vec::new();
        let member = &t.nodes[m];
        let is_member = match &member.kind {
            NodeKind::MethodDefinition { computed } => true,
            NodeKind::PropertyDefinition { computed, has_value } => true,
            _ => false,
        };
        if is_member && member.children.len() >= 1 {
            let key = member.children[0];
            assert(m < key < t.nodes@.len());
            match &t.nodes[key].kind {
                NodeKind::PrivateIdent(n) => {
                    first.push(str_copy(n));
                },
                _ => {},
            }
        }
        proof {
            assert(spec_names_view(first@) =~= spec_private_of_member(*t, m as int));
        }
        let mut rest = private_members(t, b, k + 1);
        let ghost a = first@;
        let ghost bb = rest@;
        first.append(&mut rest);
        proof {
            crate::bound_names::lemma_names_view_add(a, bb);
        }
        first
    }
}

} // verus!
