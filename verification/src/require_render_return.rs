use vstd::prelude::*;
use crate::ast::{NodeKind, SyntaxTree};
use crate::diagnostics::{Diagnostic, DiagnosticMessage, DiagnosticModel, LintContext, Severity};
use crate::prop_name::{prop_name, spec_prop_name};
use crate::text::{str_eq, JsString};

verus! {

/// Flags a React component whose `render` is defined but returns no
/// value: an ES6 class extending `Component` (or `React.Component` and the
/// like) with a `render` method or property whose function body holds no
/// return-with-argument of its own, and a `createReactClass({...})` call
/// with such a `render` property. A `render` the rule cannot read (a
/// shorthand reference, a missing definition) is left alone: absence of
/// evidence is no finding.
#[derive(Debug, Default, Clone)]
pub struct RequireRenderReturn;

pub open spec fn spec_render_word() -> Seq<u16> {
    seq![0x72u16, 0x65u16, 0x6Eu16, 0x64u16, 0x65u16, 0x72u16]
}

pub open spec fn spec_component_word() -> Seq<u16> {
    seq![0x43u16, 0x6Fu16, 0x6Du16, 0x70u16, 0x6Fu16, 0x6Eu16, 0x65u16, 0x6Eu16, 0x74u16]
}

pub open spec fn spec_create_react_class_word() -> Seq<u16> {
    seq![
        0x63u16, 0x72u16, 0x65u16, 0x61u16, 0x74u16, 0x65u16, 0x52u16, 0x65u16, 0x61u16, 0x63u16,
        0x74u16, 0x43u16, 0x6Cu16, 0x61u16, 0x73u16, 0x73u16,
    ]
}

/// The superclass marks a React component: `Component` bare or as a
/// member property (`React.Component`).
pub open spec fn spec_is_component_super(t: SyntaxTree, s: int) -> bool {
    match t.nodes@[s].kind {
        NodeKind::Ident(n) => n@ == spec_component_word(),
        NodeKind::MemberExpr(p) => p@ == spec_component_word(),
        _ => false,
    }
}

/// A return statement with an argument occurs under `i` without crossing
/// into a nested function.
pub open spec fn spec_returns_under(t: SyntaxTree, i: int) -> bool
    decreases t.nodes@.len() - i, t.nodes@[i].children@.len() + 1,
        when t.wf() && 0 <= i < t.nodes@.len()
{
    match t.nodes@[i].kind {
        NodeKind::ReturnStatement { has_argument } => has_argument,
        NodeKind::Function { name, is_arrow, expression_body } => false,
        _ => spec_returns_in_children(t, i, 0),
    }
}

pub open spec fn spec_returns_in_children(t: SyntaxTree, i: int, k: int) -> bool
    decreases t.nodes@.len() - i, t.nodes@[i].children@.len() - k,
        when t.wf() && 0 <= i < t.nodes@.len() && 0 <= k
{
    if k >= t.nodes@[i].children@.len() {
        false
    } else {
        spec_returns_under(t, t.nodes@[i].children@[k] as int) || spec_returns_in_children(
            t,
            i,
            k + 1,
        )
    }
}

/// The function at `f` returns a value: an expression-bodied arrow does;
/// otherwise some return-with-argument must stand in its own body.
pub open spec fn spec_fn_returns(t: SyntaxTree, f: int) -> bool {
    match t.nodes@[f].kind {
        NodeKind::Function { name, is_arrow, expression_body } => expression_body
            || spec_returns_in_children(t, f, 0),
        _ => false,
    }
}

/// The function value of a member, where it has one.
pub open spec fn spec_member_fn_value(t: SyntaxTree, m: int) -> Option<int>
    recommends
        t.wf(),
        0 <= m < t.nodes@.len(),
{
    let is_member = match t.nodes@[m].kind {
        NodeKind::MethodDefinition { computed } => true,
        NodeKind::PropertyDefinition { computed, has_value } => has_value,
        NodeKind::ObjectProperty { computed } => true,
        _ => false,
    };
    if is_member && t.nodes@[m].children@.len() >= 2 && (t.nodes@[t.nodes@[m].children@[1] as int].kind matches NodeKind::Function { .. }) {
        Some(t.nodes@[m].children@[1] as int)
    } else {
        None
    }
}

/// The first member of the body `b` (from position `k`) whose property
/// name is `render` and whose value is a function, with that function.
pub open spec fn spec_find_render(t: SyntaxTree, b: int, k: int) -> Option<(int, int)>
    decreases t.nodes@[b].children@.len() - k,
        when t.wf() && 0 <= b < t.nodes@.len() && 0 <= k
{
    if k >= t.nodes@[b].children@.len() {
        None
    } else {
        let m = t.nodes@[b].children@[k] as int;
        if spec_prop_name(t, m) == Some(spec_render_word()) && spec_member_fn_value(t, m)
            is Some {
            Some((m, spec_member_fn_value(t, m)->Some_0))
        } else {
            spec_find_render(t, b, k + 1)
        }
    }
}

pub open spec fn spec_render_diag(t: SyntaxTree, m: int) -> DiagnosticModel {
    DiagnosticModel {
        severity: Severity::Warning,
        message: DiagnosticMessage::RenderMustReturn,
        labels: seq![t.nodes@[m].span],
    }
}

/// The rule's finding at a class node.
pub open spec fn spec_rrr_class_diags(t: SyntaxTree, i: int) -> Seq<DiagnosticModel> {
    match t.nodes@[i].kind {
        NodeKind::Class { name, has_super } => {
            if has_super && t.nodes@[i].children@.len() >= 2 && spec_is_component_super(
                t,
                t.nodes@[i].children@[0] as int,
            ) && t.nodes@[t.nodes@[i].children@[1] as int].kind is ClassBody {
                match spec_find_render(t, t.nodes@[i].children@[1] as int, 0) {
                    Some(pair) => {
                        if !spec_fn_returns(t, pair.1) {
                            seq![spec_render_diag(t, pair.0)]
                        } else {
                            Seq::empty()
                        }
                    },
                    None => Seq::empty(),
                }
            } else {
                Seq::empty()
            }
        },
        _ => Seq::empty(),
    }
}

/// The rule's finding at a `createReactClass({...})` call.
pub open spec fn spec_rrr_call_diags(t: SyntaxTree, i: int) -> Seq<DiagnosticModel> {
    match t.nodes@[i].kind {
        NodeKind::CallExpr => {
            if t.nodes@[i].children@.len() >= 2 && (match t.nodes@[t.nodes@[i].children@[0] as int].kind {
                NodeKind::Ident(n) => n@ == spec_create_react_class_word(),
                _ => false,
            }) && t.nodes@[t.nodes@[i].children@[1] as int].kind is ObjectExpr {
                match spec_find_render(t, t.nodes@[i].children@[1] as int, 0) {
                    Some(pair) => {
                        if !spec_fn_returns(t, pair.1) {
                            seq![spec_render_diag(t, pair.0)]
                        } else {
                            Seq::empty()
                        }
                    },
                    None => Seq::empty(),
                }
            } else {
                Seq::empty()
            }
        },
        _ => Seq::empty(),
    }
}

/// Everything the rule reports at node `i`.
pub open spec fn spec_rrr_diags(t: SyntaxTree, i: int) -> Seq<DiagnosticModel> {
    spec_rrr_class_diags(t, i) + spec_rrr_call_diags(t, i)
}

fn render_units() -> (r: JsString)
    ensures
        r@ == spec_render_word(),
{
    let mut out: JsString = Vec::new();
    out.push(0x72);
    out.push(0x65);
    out.push(0x6E);
    out.push(0x64);
    out.push(0x65);
    out.push(0x72);
    proof {
        assert(out@ =~= spec_render_word());
    }
    out
}

fn component_units() -> (r: JsString)
    ensures
        r@ == spec_component_word(),
{
    let mut out: JsString = Vec::new();
    out.push(0x43);
    out.push(0x6F);
    out.push(0x6D);
    out.push(0x70);
    out.push(0x6F);
    out.push(0x6E);
    out.push(0x65);
    out.push(0x6E);
    out.push(0x74);
    proof {
        assert(out@ =~= spec_component_word());
    }
    out
}

fn create_react_class_units() -> (r: JsString)
    ensures
        r@ == spec_create_react_class_word(),
{
    let mut out: JsString = Vec::new();
    out.push(0x63);
    out.push(0x72);
    out.push(0x65);
    out.push(0x61);
    out.push(0x74);
    out.push(0x65);
    out.push(0x52);
    out.push(0x65);
    out.push(0x61);
    out.push(0x63);
    out.push(0x74);
    out.push(0x43);
    out.push(0x6C);
    out.push(0x61);
    out.push(0x73);
    out.push(0x73);
    proof {
        assert(out@ =~= spec_create_react_class_word());
    }
    out
}

fn returns_under(t: &SyntaxTree, i: usize) -> (r: bool)
    requires
        t.wf(),
        i < t.nodes@.len(),
    ensures
        r == spec_returns_under(*t, i as int),
    decreases t.nodes@.len() - i, t.nodes@[i as int].children@.len() + 1,
{
    let node = &t.nodes[i];
    match &node.kind {
        NodeKind::ReturnStatement { has_argument } => *has_argument,
        NodeKind::Function { name, is_arrow, expression_body } => false,
        _ => returns_in_children(t, i, 0),
    }
}

fn returns_in_children(t: &SyntaxTree, i: usize, k: usize) -> (r: bool)
    requires
        t.wf(),
        i < t.nodes@.len(),
    ensures
        r == spec_returns_in_children(*t, i as int, k as int),
    decreases t.nodes@.len() - i, t.nodes@[i as int].children@.len() - k,
{
    let node = &t.nodes[i];
    if k >= node.children.len() {
        false
    } else {
        let c = node.children[k];
        assert(i < c < t.nodes@.len());
        if returns_under(t, c) {
            true
        } else {
            returns_in_children(t, i, k + 1)
        }
    }
}

fn fn_returns(t: &SyntaxTree, f: usize) -> (r: bool)
    requires
        t.wf(),
        f < t.nodes@.len(),
    ensures
        r == spec_fn_returns(*t, f as int),
{
    let node = &t.nodes[f];
    match &node.kind {
        NodeKind::Function { name, is_arrow, expression_body } => {
            if *expression_body {
                true
            } else {
                returns_in_children(t, f, 0)
            }
        },
        _ => false,
    }
}

fn member_fn_value(t: &SyntaxTree, m: usize) -> (r: Option<usize>)
    requires
        t.wf(),
        m < t.nodes@.len(),
    ensures
        match r {
            Some(f) => spec_member_fn_value(*t, m as int) == Some(f as int) && f
                < t.nodes@.len(),
            None => spec_member_fn_value(*t, m as int) is None,
        },
{
    let node = &t.nodes[m];
    let is_member = match &node.kind {
        NodeKind::MethodDefinition { computed } => true,
        NodeKind::PropertyDefinition { computed, has_value } => *has_value,
        NodeKind::ObjectProperty { computed } => true,
        _ => false,
    };
    if is_member && node.children.len() >= 2 {
        let f = node.children[1];
        assert(m < f < t.nodes@.len());
        match &t.nodes[f].kind {
            NodeKind::Function { name, is_arrow, expression_body } => Some(f),
            _ => None,
        }
    } else {
        None
    }
}

fn find_render(t: &SyntaxTree, b: usize, k: usize) -> (r: Option<(usize, usize)>)
    requires
        t.wf(),
        b < t.nodes@.len(),
    ensures
        match r {
            Some(pair) => spec_find_render(*t, b as int, k as int) == Some(
                (pair.0 as int, pair.1 as int),
            ) && pair.0 < t.nodes@.len() && pair.1 < t.nodes@.len(),
            None => spec_find_render(*t, b as int, k as int) is None,
        },
    decreases t.nodes@[b as int].children@.len() - k,
{
    let node = &t.nodes[b];
    if k >= node.children.len() {
        return None;
    }
    let m = node.children[k];
    assert(b < m < t.nodes@.len());
    let render = render_units();
    let is_render = match prop_name(t, m) {
        Some(name) => str_eq(&name, &render),
        None => false,
    };
    if is_render {
        match member_fn_value(t, m) {
            Some(f) => {
                return Some((m, f));
            },
            None => {},
        }
    }
    find_render(t, b, k + 1)
}

impl RequireRenderReturn {
    /// The per-node check: appends exactly the rule's findings at node
    /// `i`.
    pub fn run(&self, t: &SyntaxTree, i: usize, ctx: &mut LintContext)
        requires
            t.wf(),
            i < t.nodes@.len(),
        ensures
            final(ctx).diags() == old(ctx).diags() + spec_rrr_diags(*t, i as int),
    {
        let ghost before = ctx.diags();
        let node = &t.nodes[i];
        match &node.kind {
            NodeKind::Class { name, has_super } => {
                if *has_super && node.children.len() >= 2 {
                    let sup = node.children[0];
                    let body = node.children[1];
                    assert(i < sup < t.nodes@.len());
                    assert(i < body < t.nodes@.len());
                    let comp = component_units();
                    let is_comp = match &t.nodes[sup].kind {
                        NodeKind::Ident(n) => str_eq(n, &comp),
                        NodeKind::MemberExpr(p) => str_eq(p, &comp),
                        _ => false,
                    };
                    let is_body = matches!(&t.nodes[body].kind, NodeKind::ClassBody);
                    if is_comp && is_body {
                        check_render(t, body, ctx);
                        proof {
                            assert(ctx.diags() =~= before + spec_rrr_diags(*t, i as int));
                        }
                        return ;
                    }
                }
                proof {
                    assert(ctx.diags() =~= before + spec_rrr_diags(*t, i as int));
                }
            },
            NodeKind::CallExpr => {
                if node.children.len() >= 2 {
                    let callee = node.children[0];
                    let arg = node.children[1];
                    assert(i < callee < t.nodes@.len());
                    assert(i < arg < t.nodes@.len());
                    let crc = create_react_class_units();
                    let is_crc = match &t.nodes[callee].kind {
                        NodeKind::Ident(n) => str_eq(n, &crc),
                        _ => false,
                    };
                    let is_obj = matches!(&t.nodes[arg].kind, NodeKind::ObjectExpr);
                    if is_crc && is_obj {
                        check_render(t, arg, ctx);
                        proof {
                            assert(ctx.diags() =~= before + spec_rrr_diags(*t, i as int));
                        }
                        return ;
                    }
                }
                proof {
                    assert(ctx.diags() =~= before + spec_rrr_diags(*t, i as int));
                }
            },
            _ => {
                proof {
                    assert(ctx.diags() =~= before + spec_rrr_diags(*t, i as int));
                }
            },
        }
    }
}

/// Looks for a defined `render` with a function value in the member list
/// `b` and reports it where it returns nothing.
fn check_render(t: &SyntaxTree, b: usize, ctx: &mut LintContext)
    requires
        t.wf(),
        b < t.nodes@.len(),
    ensures
        final(ctx).diags() == old(ctx).diags() + (match spec_find_render(*t, b as int, 0) {
            Some(pair) => {
                if !spec_fn_returns(*t, pair.1) {
                    seq![spec_render_diag(*t, pair.0)]
                } else {
                    Seq::<DiagnosticModel>::empty()
                }
            },
            None => Seq::<DiagnosticModel>::empty(),
        }),
{
    let ghost before = ctx.diags();
    match find_render(t, b, 0) {
        Some(pair) => {
            if !fn_returns(t, pair.1) {
                let mut labels: Vec<crate::span::Span> = Vec::new();
                labels.push(t.nodes[pair.0].span);
                let d = Diagnostic {
                    severity: Severity::Warning,
                    message: DiagnosticMessage::RenderMustReturn,
                    labels,
                };
                proof {
                    assert(d@.labels =~= seq![t.nodes@[pair.0 as int].span]);
                }
                ctx.diagnostic(d);
                proof {
                    assert(ctx.diags() =~= before + seq![spec_render_diag(*t, pair.0 as int)]);
                }
            } else {
                proof {
                    assert(ctx.diags() =~= before + Seq::<DiagnosticModel>::empty());
                }
            }
        },
        None => {
            proof {
                assert(ctx.diags() =~= before + Seq::<DiagnosticModel>::empty());
            }
        },
    }
}

} // verus!
