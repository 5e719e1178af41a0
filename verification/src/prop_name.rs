use vstd::prelude::*;
use crate::ast::{NodeKind, SyntaxTree};
use crate::eval::{eval_node, spec_eval};
use crate::text::{str_copy, JsString};
use crate::to_string::{render_number, spec_render_number};
use crate::value::{spec_to_js_string_value, to_js_string_value};

verus! {

/// The specification's PropName: the statically known property key of an
/// object or class member — an identifier name, a string literal, or a
/// numeric literal rendered as its canonical string. A computed key is
/// known only where its expression is a constant; otherwise the key is
/// unknown. A private name is no property name.
pub open spec fn spec_prop_name(t: SyntaxTree, i: int) -> Option<Seq<u16>>
    recommends
        t.wf(),
        0 <= i < t.nodes@.len(),
{
    let node = t.nodes@[i];
    let is_member = match node.kind {
        NodeKind::ObjectProperty { computed } => true,
        NodeKind::MethodDefinition { computed } => true,
        NodeKind::PropertyDefinition { computed, has_value } => true,
        _ => false,
    };
    let computed = match node.kind {
        NodeKind::ObjectProperty { computed } => computed,
        NodeKind::MethodDefinition { computed } => computed,
        NodeKind::PropertyDefinition { computed, has_value } => computed,
        _ => false,
    };
    if is_member && node.children@.len() >= 1 {
        let key = node.children@[0] as int;
        if computed {
            match spec_eval(t, key) {
                Some(v) => Some(spec_to_js_string_value(v)),
                None => None,
            }
        } else {
            match t.nodes@[key].kind {
                NodeKind::Ident(n) => Some(n@),
                NodeKind::StringLit(s) => Some(s@),
                NodeKind::NumberLit(n) => Some(spec_render_number(n)),
                _ => None,
            }
        }
    } else {
        None
    }
}

/// Executable PropName.
pub fn prop_name(t: &SyntaxTree, i: usize) -> (r: Option<JsString>)
    requires
        t.wf(),
        i < t.nodes@.len(),
    ensures
        match r {
            Some(s) => spec_prop_name(*t, i as int) == Some(s@),
            None => spec_prop_name(*t, i as int) is None,
        },
{
    let node = &t.nodes[i];
    let flags: Option<bool> = match &node.kind {
        NodeKind::ObjectProperty { computed } => Some(*computed),
        NodeKind::MethodDefinition { computed } => Some(*computed),
        NodeKind::PropertyDefinition { computed, has_value } => Some(*computed),
        _ => None,
    };
    match flags {
        None => None,
        Some(computed) => {
            if node.children.len() >= 1 {
                let key = node.children[0];
                assert(i < key < t.nodes@.len());
                if computed {
                    match eval_node(t, key) {
                        Some(v) => Some(to_js_string_value(&v)),
                        None => None,
                    }
                } else {
                    match &t.nodes[key].kind {
                        NodeKind::Ident(n) => Some(str_copy(n)),
                        NodeKind::StringLit(s) => Some(str_copy(s)),
                        NodeKind::NumberLit(n) => Some(render_number(n)),
                        _ => None,
                    }
                }
            } else {
                None
            }
        },
    }
}

} // verus!
