use ecma_lint_core::ast::{Node, NodeKind, SyntaxTree};
use ecma_lint_core::diagnostics::{Diagnostic, DiagnosticMessage};
use ecma_lint_core::engine::{run_unit, RuleInstance, RuleRegistry};
use ecma_lint_core::module_record::{ModuleGraph, ModuleRecord};
use ecma_lint_core::require_render_return::RequireRenderReturn;
use ecma_lint_core::span::Span;

fn js(s: &str) -> Vec<u16> {
    s.encode_utf16().collect()
}

fn node(kind: NodeKind, children: Vec<usize>) -> Node {
    Node { kind, span: Span::new(0, 0), children }
}

fn run_rrr(t: &SyntaxTree) -> Vec<Diagnostic> {
    let mut reg = RuleRegistry::new();
    reg.register(RuleInstance::RequireRenderReturn(RequireRenderReturn));
    let g = ModuleGraph {
        records: vec![ModuleRecord {
            resolved_absolute_path: js("/unit.js"),
            requests: Vec::new(),
            loaded: Vec::new(),
        }],
    };
    run_unit(&reg, t, &g, 0).diagnostics
}

/// A React class whose render member is built by `member`, which receives
/// the index where the member's nodes start and returns them.
fn react_class(member: impl Fn(usize) -> Vec<Node>) -> SyntaxTree {
    let mut nodes = vec![
        node(NodeKind::Class { name: Some(js("Hello")), has_super: true }, vec![1, 3]),
        node(NodeKind::MemberExpr(js("Component")), vec![2]),
        node(NodeKind::Ident(js("React")), vec![]),
        node(NodeKind::ClassBody, vec![4]),
    ];
    nodes.extend(member(4));
    SyntaxTree { nodes }
}

/// A `createReactClass({...})` call whose properties are built by `props`.
fn create_react_class(props: impl Fn(usize) -> (Vec<usize>, Vec<Node>)) -> SyntaxTree {
    let (prop_roots, extra) = props(3);
    let mut nodes = vec![
        node(NodeKind::CallExpr, vec![1, 2]),
        node(NodeKind::Ident(js("createReactClass")), vec![]),
        node(NodeKind::ObjectExpr, prop_roots),
    ];
    nodes.extend(extra);
    SyntaxTree { nodes }
}

/// A method-style `render` whose function body is built by `body`, which
/// receives the body block's index and returns (children, extra nodes).
fn render_method(at: usize, body: impl Fn(usize) -> (Vec<usize>, Vec<Node>)) -> Vec<Node> {
    let (kids, extra) = body(at + 4);
    let mut out = vec![
        node(NodeKind::MethodDefinition { computed: false }, vec![at + 1, at + 2]),
        node(NodeKind::Ident(js("render")), vec![]),
        node(
            NodeKind::Function { name: None, is_arrow: false, expression_body: false },
            vec![at + 3, at + 4],
        ),
        node(NodeKind::FormalParameters, vec![]),
        node(NodeKind::Other, kids),
    ];
    out.extend(extra);
    out
}

#[test]
fn require_render_return_test() {
    // class Hello extends React.Component { render() { return <div/>; } }
    let t = react_class(|at| {
        render_method(at, |b| (vec![b + 1], vec![
            node(NodeKind::ReturnStatement { has_argument: true }, vec![b + 2]),
            node(NodeKind::Other, vec![]),
        ]))
    });
    assert_eq!(run_rrr(&t).len(), 0);
    // class Hello extends React.Component { render = () => { return <div/>; } }
    let t = react_class(|at| {
        vec![
            node(NodeKind::PropertyDefinition { computed: false, has_value: true }, vec![
                at + 1,
                at + 2,
            ]),
            node(NodeKind::Ident(js("render")), vec![]),
            node(
                NodeKind::Function { name: None, is_arrow: true, expression_body: false },
                vec![at + 3, at + 4],
            ),
            node(NodeKind::FormalParameters, vec![]),
            node(NodeKind::Other, vec![at + 5]),
            node(NodeKind::ReturnStatement { has_argument: true }, vec![at + 6]),
            node(NodeKind::Other, vec![]),
        ]
    });
    assert_eq!(run_rrr(&t).len(), 0);
    // class Hello extends React.Component { render = () => ( <div/> ) }
    let t = react_class(|at| {
        vec![
            node(NodeKind::PropertyDefinition { computed: false, has_value: true }, vec![
                at + 1,
                at + 2,
            ]),
            node(NodeKind::Ident(js("render")), vec![]),
            node(
                NodeKind::Function { name: None, is_arrow: true, expression_body: true },
                vec![at + 3, at + 4],
            ),
            node(NodeKind::FormalParameters, vec![]),
            node(NodeKind::Other, vec![]),
        ]
    });
    assert_eq!(run_rrr(&t).len(), 0);
    // var Hello = createReactClass({ displayName: 'Hello', render: function() { return <div/> } });
    let t = create_react_class(|at| {
        (vec![at, at + 3], vec![
            node(NodeKind::ObjectProperty { computed: false }, vec![at + 1, at + 2]),
            node(NodeKind::Ident(js("displayName")), vec![]),
            node(NodeKind::StringLit(js("Hello")), vec![]),
            node(NodeKind::ObjectProperty { computed: false }, vec![at + 4, at + 5]),
            node(NodeKind::Ident(js("render")), vec![]),
            node(
                NodeKind::Function { name: None, is_arrow: false, expression_body: false },
                vec![at + 6, at + 7],
            ),
            node(NodeKind::FormalParameters, vec![]),
            node(NodeKind::Other, vec![at + 8]),
            node(NodeKind::ReturnStatement { has_argument: true }, vec![at + 9]),
            node(NodeKind::Other, vec![]),
        ])
    });
    assert_eq!(run_rrr(&t).len(), 0);
    // function Hello() { return <div/>; }
    let t = SyntaxTree {
        nodes: vec![
            node(
                NodeKind::Function { name: Some(js("Hello")), is_arrow: false, expression_body: false },
                vec![1, 2],
            ),
            node(NodeKind::FormalParameters, vec![]),
            node(NodeKind::Other, vec![3]),
            node(NodeKind::ReturnStatement { has_argument: true }, vec![4]),
            node(NodeKind::Other, vec![]),
        ],
    };
    assert_eq!(run_rrr(&t).len(), 0);
    // var Hello = () => ( <div/> );
    let t = SyntaxTree {
        nodes: vec![
            node(NodeKind::VariableDeclarator, vec![1, 2]),
            node(NodeKind::BindingIdent(js("Hello")), vec![]),
            node(
                NodeKind::Function { name: None, is_arrow: true, expression_body: true },
                vec![3, 4],
            ),
            node(NodeKind::FormalParameters, vec![]),
            node(NodeKind::Other, vec![]),
        ],
    };
    assert_eq!(run_rrr(&t).len(), 0);
    // createReactClass render with a switch returning in every case
    let t = create_react_class(|at| {
        (vec![at], vec![
            node(NodeKind::ObjectProperty { computed: false }, vec![at + 1, at + 2]),
            node(NodeKind::Ident(js("render")), vec![]),
            node(
                NodeKind::Function { name: None, is_arrow: false, expression_body: false },
                vec![at + 3, at + 4],
            ),
            node(NodeKind::FormalParameters, vec![]),
            node(NodeKind::Other, vec![at + 5]),
            node(NodeKind::Other, vec![at + 6, at + 8]),
            node(NodeKind::ReturnStatement { has_argument: true }, vec![at + 7]),
            node(NodeKind::Other, vec![]),
            node(NodeKind::ReturnStatement { has_argument: true }, vec![at + 9]),
            node(NodeKind::Other, vec![]),
        ])
    });
    assert_eq!(run_rrr(&t).len(), 0);
    // createReactClass render with if/else returning in both branches
    let t = create_react_class(|at| {
        (vec![at], vec![
            node(NodeKind::ObjectProperty { computed: false }, vec![at + 1, at + 2]),
            node(NodeKind::Ident(js("render")), vec![]),
            node(
                NodeKind::Function { name: None, is_arrow: false, expression_body: false },
                vec![at + 3, at + 4],
            ),
            node(NodeKind::FormalParameters, vec![]),
            node(NodeKind::Other, vec![at + 5]),
            node(NodeKind::Other, vec![at + 6, at + 7]),
            node(NodeKind::ReturnStatement { has_argument: true }, vec![at + 8]),
            node(NodeKind::ReturnStatement { has_argument: true }, vec![at + 9]),
            node(NodeKind::Other, vec![]),
            node(NodeKind::Other, vec![]),
        ])
    });
    assert_eq!(run_rrr(&t).len(), 0);
    // class Hello { render() {} } — no component heritage
    let t = SyntaxTree {
        nodes: vec![
            node(NodeKind::Class { name: Some(js("Hello")), has_super: false }, vec![1]),
            node(NodeKind::ClassBody, vec![2]),
            node(NodeKind::MethodDefinition { computed: false }, vec![3, 4]),
            node(NodeKind::Ident(js("render")), vec![]),
            node(
                NodeKind::Function { name: None, is_arrow: false, expression_body: false },
                vec![5, 6],
            ),
            node(NodeKind::FormalParameters, vec![]),
            node(NodeKind::Other, vec![]),
        ],
    };
    assert_eq!(run_rrr(&t).len(), 0);
    // class Hello extends React.Component {} — no render at all
    let t = SyntaxTree {
        nodes: vec![
            node(NodeKind::Class { name: Some(js("Hello")), has_super: true }, vec![1, 3]),
            node(NodeKind::MemberExpr(js("Component")), vec![2]),
            node(NodeKind::Ident(js("React")), vec![]),
            node(NodeKind::ClassBody, vec![]),
        ],
    };
    assert_eq!(run_rrr(&t).len(), 0);
    // var Hello = createReactClass({});
    let t = create_react_class(|_at| (vec![], vec![]));
    assert_eq!(run_rrr(&t).len(), 0);
    // var render = require('./render'); createReactClass({ render }) — shorthand
    let t = create_react_class(|at| {
        (vec![at], vec![
            node(NodeKind::ObjectProperty { computed: false }, vec![at + 1, at + 2]),
            node(NodeKind::Ident(js("render")), vec![]),
            node(NodeKind::Ident(js("render")), vec![]),
        ])
    });
    assert_eq!(run_rrr(&t).len(), 0);
    // class Foo extends Component { render } — a bare property, no value
    let t = SyntaxTree {
        nodes: vec![
            node(NodeKind::Class { name: Some(js("Foo")), has_super: true }, vec![1, 2]),
            node(NodeKind::Ident(js("Component")), vec![]),
            node(NodeKind::ClassBody, vec![3]),
            node(NodeKind::PropertyDefinition { computed: false, has_value: false }, vec![4]),
            node(NodeKind::Ident(js("render")), vec![]),
        ],
    };
    assert_eq!(run_rrr(&t).len(), 0);
    // var Hello = createReactClass({ displayName: 'Hello', render: function() {} });
    let t = create_react_class(|at| {
        (vec![at, at + 3], vec![
            node(NodeKind::ObjectProperty { computed: false }, vec![at + 1, at + 2]),
            node(NodeKind::Ident(js("displayName")), vec![]),
            node(NodeKind::StringLit(js("Hello")), vec![]),
            node(NodeKind::ObjectProperty { computed: false }, vec![at + 4, at + 5]),
            node(NodeKind::Ident(js("render")), vec![]),
            node(
                NodeKind::Function { name: None, is_arrow: false, expression_body: false },
                vec![at + 6, at + 7],
            ),
            node(NodeKind::FormalParameters, vec![]),
            node(NodeKind::Other, vec![]),
        ])
    });
    let d = run_rrr(&t);
    assert_eq!(d.len(), 1);
    assert_eq!(d[0].message, DiagnosticMessage::RenderMustReturn);
    // class Hello extends React.Component { render() {} }
    let t = react_class(|at| render_method(at, |_b| (vec![], vec![])));
    assert_eq!(run_rrr(&t).len(), 1);
    // render() { const names = this.props.names.map(function(name) { return <div/> }); }
    let t = react_class(|at| {
        render_method(at, |b| (vec![b + 1], vec![
            node(NodeKind::Other, vec![b + 2]),
            node(
                NodeKind::Function { name: None, is_arrow: false, expression_body: false },
                vec![b + 3, b + 4],
            ),
            node(NodeKind::FormalParameters, vec![]),
            node(NodeKind::Other, vec![b + 5]),
            node(NodeKind::ReturnStatement { has_argument: true }, vec![b + 6]),
            node(NodeKind::Other, vec![]),
        ]))
    });
    assert_eq!(run_rrr(&t).len(), 1);
    // class Hello extends React.Component { render = () => { <div/> } }
    let t = react_class(|at| {
        vec![
            node(NodeKind::PropertyDefinition { computed: false, has_value: true }, vec![
                at + 1,
                at + 2,
            ]),
            node(NodeKind::Ident(js("render")), vec![]),
            node(
                NodeKind::Function { name: None, is_arrow: true, expression_body: false },
                vec![at + 3, at + 4],
            ),
            node(NodeKind::FormalParameters, vec![]),
            node(NodeKind::Other, vec![at + 5]),
            node(NodeKind::Other, vec![]),
        ]
    });
    assert_eq!(run_rrr(&t).len(), 1);
}
