use ecma_lint_core::ast::{Node, NodeKind, SyntaxTree};
use ecma_lint_core::engine::{run_unit, RuleInstance, RuleRegistry};
use ecma_lint_core::module_record::{
    ImportForm, ImportRequest, ModuleGraph, ModuleRecord, Resolution,
};
use ecma_lint_core::no_absolute_path::NoAbsolutePath;
use ecma_lint_core::no_duplicates::NoDuplicates;
use ecma_lint_core::number::JsNumber;
use ecma_lint_core::require_render_return::RequireRenderReturn;
use ecma_lint_core::span::Span;

fn js(s: &str) -> Vec<u16> {
    s.encode_utf16().collect()
}

fn node(kind: NodeKind, children: Vec<usize>) -> Node {
    Node { kind, span: Span::new(0, 0), children }
}

/// A tree of one hundred nodes of mixed variants, none of them a class or
/// a call.
fn mixed_hundred() -> SyntaxTree {
    let mut nodes = vec![node(NodeKind::Other, (1..100).collect())];
    for i in 1..100usize {
        let kind = match i % 6 {
            0 => NodeKind::NumberLit(JsNumber::Finite { neg: false, mant: i as u64, scale: 0 }),
            1 => NodeKind::StringLit(js("s")),
            2 => NodeKind::Ident(js("x")),
            3 => NodeKind::BooleanLit(true),
            4 => NodeKind::ReturnStatement { has_argument: false },
            _ => NodeKind::NullLit,
        };
        nodes.push(node(kind, vec![]));
    }
    SyntaxTree { nodes }
}

fn empty_unit() -> ModuleGraph {
    ModuleGraph {
        records: vec![ModuleRecord {
            resolved_absolute_path: js("/unit.js"),
            requests: Vec::new(),
            loaded: Vec::new(),
        }],
    }
}

/// A rule interested only in class and call nodes is never invoked on any
/// of one hundred nodes of other variants: a full traversal emits nothing.
#[test]
fn dispatch_skips_uninterested_rules() {
    let t = mixed_hundred();
    let g = empty_unit();
    let mut reg = RuleRegistry::new();
    reg.register(RuleInstance::RequireRenderReturn(RequireRenderReturn));
    let ctx = run_unit(&reg, &t, &g, 0);
    assert_eq!(ctx.diagnostics.len(), 0);
    // the same tree with one render-less component appended yields exactly
    // the one finding of that node
    let mut t2 = mixed_hundred();
    let base = t2.nodes.len();
    t2.nodes[0].children.push(base);
    t2.nodes.push(node(
        NodeKind::Class { name: Some(js("Hello")), has_super: true },
        vec![base + 1, base + 2],
    ));
    t2.nodes.push(node(NodeKind::Ident(js("Component")), vec![]));
    t2.nodes.push(node(NodeKind::ClassBody, vec![base + 3]));
    t2.nodes.push(node(NodeKind::MethodDefinition { computed: false }, vec![base + 4, base + 5]));
    t2.nodes.push(node(NodeKind::Ident(js("render")), vec![]));
    t2.nodes.push(node(
        NodeKind::Function { name: None, is_arrow: false, expression_body: false },
        vec![base + 6, base + 7],
    ));
    t2.nodes.push(node(NodeKind::FormalParameters, vec![]));
    t2.nodes.push(node(NodeKind::Other, vec![]));
    let ctx2 = run_unit(&reg, &t2, &g, 0);
    assert_eq!(ctx2.diagnostics.len(), 1);
}

/// Two runs of one unit with one rule set and configuration produce
/// byte-identical diagnostic sequences.
#[test]
fn engine_runs_are_deterministic() {
    let t = mixed_hundred();
    let g = ModuleGraph {
        records: vec![
            ModuleRecord {
                resolved_absolute_path: js("/self.js"),
                requests: vec![
                    ImportRequest {
                        specifier: js("./self"),
                        span: Span::new(0, 6),
                        form: ImportForm::Value,
                    },
                    ImportRequest {
                        specifier: js("./dep"),
                        span: Span::new(10, 16),
                        form: ImportForm::Value,
                    },
                    ImportRequest {
                        specifier: js("./dep"),
                        span: Span::new(20, 26),
                        form: ImportForm::Value,
                    },
                ],
                loaded: vec![
                    Resolution { specifier: js("./self"), target: 0 },
                    Resolution { specifier: js("./dep"), target: 1 },
                ],
            },
            ModuleRecord {
                resolved_absolute_path: js("/dep.js"),
                requests: Vec::new(),
                loaded: vec![Resolution { specifier: js("./self"), target: 0 }],
            },
        ],
    };
    let mut reg = RuleRegistry::new();
    reg.register(RuleInstance::NoAbsolutePath(NoAbsolutePath));
    reg.register(RuleInstance::NoDuplicates(NoDuplicates::default()));
    reg.register(RuleInstance::RequireRenderReturn(RequireRenderReturn));
    let first = run_unit(&reg, &t, &g, 0);
    let second = run_unit(&reg, &t, &g, 0);
    assert_eq!(first.diagnostics, second.diagnostics);
    assert!(first.diagnostics.len() > 0);
}
