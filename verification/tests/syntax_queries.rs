use ecma_lint_core::ast::{Node, NodeKind, SyntaxTree};
use ecma_lint_core::big_int::JsBigInt;
use ecma_lint_core::bound_names::bound_names;
use ecma_lint_core::is_simple_parameter_list::is_simple_parameter_list;
use ecma_lint_core::number::JsNumber;
use ecma_lint_core::private_bound_identifiers::private_bound_identifiers;
use ecma_lint_core::prop_name::prop_name;
use ecma_lint_core::span::Span;
use ecma_lint_core::to_big_int::to_big_int;
use ecma_lint_core::to_boolean::to_boolean;
use ecma_lint_core::to_number::to_number;
use ecma_lint_core::to_string::to_js_string;

fn js(s: &str) -> Vec<u16> {
    s.encode_utf16().collect()
}

fn node(kind: NodeKind, children: Vec<usize>) -> Node {
    Node { kind, span: Span::new(0, 0), children }
}

fn finite(neg: bool, mant: u64, scale: u32) -> JsNumber {
    JsNumber::Finite { neg, mant, scale }
}

#[test]
fn bound_names_of_destructuring_parameter() {
    // the pattern {a, b: [c, ...d]}
    let t = SyntaxTree {
        nodes: vec![
            node(NodeKind::ObjectPattern, vec![1, 3]),
            node(NodeKind::ObjectPatternProp, vec![2]),
            node(NodeKind::BindingIdent(js("a")), vec![]),
            node(NodeKind::ObjectPatternProp, vec![4]),
            node(NodeKind::ArrayPattern, vec![5, 6]),
            node(NodeKind::BindingIdent(js("c")), vec![]),
            node(NodeKind::RestElement, vec![7]),
            node(NodeKind::BindingIdent(js("d")), vec![]),
        ],
    };
    let names = bound_names(&t, 0);
    assert_eq!(names, vec![js("a"), js("c"), js("d")]);
}

#[test]
fn bound_names_keeps_duplicates_and_order() {
    // the parameter list (x, x, y = 1)
    let t = SyntaxTree {
        nodes: vec![
            node(NodeKind::FormalParameters, vec![1, 2, 3]),
            node(NodeKind::BindingIdent(js("x")), vec![]),
            node(NodeKind::BindingIdent(js("x")), vec![]),
            node(NodeKind::AssignmentPattern, vec![4, 5]),
            node(NodeKind::BindingIdent(js("y")), vec![]),
            node(NodeKind::NumberLit(finite(false, 1, 0)), vec![]),
        ],
    };
    assert_eq!(bound_names(&t, 0), vec![js("x"), js("x"), js("y")]);
}

#[test]
fn simple_parameter_list_plain_identifiers() {
    // (a, b, c)
    let t = SyntaxTree {
        nodes: vec![
            node(NodeKind::FormalParameters, vec![1, 2, 3]),
            node(NodeKind::BindingIdent(js("a")), vec![]),
            node(NodeKind::BindingIdent(js("b")), vec![]),
            node(NodeKind::BindingIdent(js("c")), vec![]),
        ],
    };
    assert!(is_simple_parameter_list(&t, 0));
}

#[test]
fn non_simple_parameter_lists() {
    // (a, b = 1)
    let with_default = SyntaxTree {
        nodes: vec![
            node(NodeKind::FormalParameters, vec![1, 2]),
            node(NodeKind::BindingIdent(js("a")), vec![]),
            node(NodeKind::AssignmentPattern, vec![3, 4]),
            node(NodeKind::BindingIdent(js("b")), vec![]),
            node(NodeKind::NumberLit(finite(false, 1, 0)), vec![]),
        ],
    };
    assert!(!is_simple_parameter_list(&with_default, 0));
    // ({a})
    let with_pattern = SyntaxTree {
        nodes: vec![
            node(NodeKind::FormalParameters, vec![1]),
            node(NodeKind::ObjectPattern, vec![2]),
            node(NodeKind::ObjectPatternProp, vec![3]),
            node(NodeKind::BindingIdent(js("a")), vec![]),
        ],
    };
    assert!(!is_simple_parameter_list(&with_pattern, 0));
    // (...rest)
    let with_rest = SyntaxTree {
        nodes: vec![
            node(NodeKind::FormalParameters, vec![1]),
            node(NodeKind::RestElement, vec![2]),
            node(NodeKind::BindingIdent(js("rest")), vec![]),
        ],
    };
    assert!(!is_simple_parameter_list(&with_rest, 0));
}

#[test]
fn private_bound_identifiers_of_class_body() {
    // class C { #a; b() {} #c() {} }
    let t = SyntaxTree {
        nodes: vec![
            node(NodeKind::Class { name: Some(js("C")), has_super: false }, vec![1]),
            node(NodeKind::ClassBody, vec![2, 4, 8]),
            node(NodeKind::PropertyDefinition { computed: false, has_value: false }, vec![3]),
            node(NodeKind::PrivateIdent(js("a")), vec![]),
            node(NodeKind::MethodDefinition { computed: false }, vec![5, 6]),
            node(NodeKind::Ident(js("b")), vec![]),
            node(
                NodeKind::Function { name: None, is_arrow: false, expression_body: false },
                vec![7],
            ),
            node(NodeKind::FormalParameters, vec![]),
            node(NodeKind::MethodDefinition { computed: false }, vec![9, 10]),
            node(NodeKind::PrivateIdent(js("c")), vec![]),
            node(
                NodeKind::Function { name: None, is_arrow: false, expression_body: false },
                vec![11],
            ),
            node(NodeKind::FormalParameters, vec![]),
        ],
    };
    assert_eq!(private_bound_identifiers(&t, 0), vec![js("a"), js("c")]);
}

#[test]
fn prop_name_kinds() {
    // an object with keys: name, "str", 1.5, [computed "a" + "b"], #p
    let t = SyntaxTree {
        nodes: vec![
            node(NodeKind::ObjectExpr, vec![1, 4, 7, 10, 15]),
            node(NodeKind::ObjectProperty { computed: false }, vec![2, 3]),
            node(NodeKind::Ident(js("name")), vec![]),
            node(NodeKind::NullLit, vec![]),
            node(NodeKind::ObjectProperty { computed: false }, vec![5, 6]),
            node(NodeKind::StringLit(js("str")), vec![]),
            node(NodeKind::NullLit, vec![]),
            node(NodeKind::ObjectProperty { computed: false }, vec![8, 9]),
            node(NodeKind::NumberLit(finite(false, 15, 1)), vec![]),
            node(NodeKind::NullLit, vec![]),
            node(NodeKind::ObjectProperty { computed: true }, vec![11, 14]),
            node(NodeKind::BinaryAdd, vec![12, 13]),
            node(NodeKind::StringLit(js("a")), vec![]),
            node(NodeKind::StringLit(js("b")), vec![]),
            node(NodeKind::NullLit, vec![]),
            node(NodeKind::ObjectProperty { computed: true }, vec![16, 17]),
            node(NodeKind::Ident(js("dynamic")), vec![]),
            node(NodeKind::NullLit, vec![]),
        ],
    };
    assert_eq!(prop_name(&t, 1), Some(js("name")));
    assert_eq!(prop_name(&t, 4), Some(js("str")));
    assert_eq!(prop_name(&t, 7), Some(js("1.5")));
    assert_eq!(prop_name(&t, 10), Some(js("ab")));
    assert_eq!(prop_name(&t, 15), None);
    assert_eq!(prop_name(&t, 0), None);
}

#[test]
fn node_conversions_follow_worked_examples() {
    // ToNumber("") == 0, ToBoolean(NaN) == false, ToBoolean("0") == true,
    // ToBigInt(3.0) == 3n, ToBigInt(3.5) unknown
    let t = SyntaxTree {
        nodes: vec![
            node(NodeKind::StringLit(js("")), vec![]),
            node(NodeKind::NumberLit(JsNumber::NaN), vec![]),
            node(NodeKind::StringLit(js("0")), vec![]),
            node(NodeKind::NumberLit(finite(false, 3, 0)), vec![]),
            node(NodeKind::NumberLit(finite(false, 35, 1)), vec![]),
            node(NodeKind::Ident(js("undefined")), vec![]),
            node(NodeKind::Ident(js("dynamic")), vec![]),
            node(NodeKind::StringLit(js("  42  ")), vec![]),
            node(NodeKind::StringLit(js("abc")), vec![]),
        ],
    };
    assert_eq!(to_number(&t, 0), Some(finite(false, 0, 0)));
    assert_eq!(to_boolean(&t, 1), Some(false));
    assert_eq!(to_boolean(&t, 2), Some(true));
    assert_eq!(to_big_int(&t, 3), Some(JsBigInt { neg: false, mag: 3 }));
    assert_eq!(to_big_int(&t, 4), None);
    assert_eq!(to_boolean(&t, 5), Some(false));
    assert_eq!(to_boolean(&t, 6), None);
    assert_eq!(to_number(&t, 7), Some(finite(false, 42, 0)));
    assert_eq!(to_number(&t, 8), Some(JsNumber::NaN));
}

#[test]
fn folding_of_unary_and_binary_operators() {
    // -"0x10" folds to -16; 2 + 3 * 4 (as a tree) folds to 14;
    // "a" + "b" concatenates; 1 + dynamic is unknown
    let t = SyntaxTree {
        nodes: vec![
            node(NodeKind::UnaryMinus, vec![1]),
            node(NodeKind::StringLit(js("0x10")), vec![]),
            node(NodeKind::BinaryAdd, vec![3, 4]),
            node(NodeKind::NumberLit(finite(false, 2, 0)), vec![]),
            node(NodeKind::BinaryMul, vec![5, 6]),
            node(NodeKind::NumberLit(finite(false, 3, 0)), vec![]),
            node(NodeKind::NumberLit(finite(false, 4, 0)), vec![]),
            node(NodeKind::BinaryAdd, vec![8, 9]),
            node(NodeKind::StringLit(js("a")), vec![]),
            node(NodeKind::StringLit(js("b")), vec![]),
            node(NodeKind::BinaryAdd, vec![11, 12]),
            node(NodeKind::NumberLit(finite(false, 1, 0)), vec![]),
            node(NodeKind::Ident(js("dynamic")), vec![]),
            node(NodeKind::BinarySub, vec![14, 15]),
            node(NodeKind::NumberLit(finite(false, 1, 0)), vec![]),
            node(NodeKind::NumberLit(finite(false, 5, 0)), vec![]),
        ],
    };
    assert_eq!(to_number(&t, 0), Some(finite(true, 16, 0)));
    assert_eq!(to_number(&t, 2), Some(finite(false, 14, 0)));
    assert_eq!(to_js_string(&t, 7), Some(js("ab")));
    assert_eq!(to_number(&t, 10), None);
    assert_eq!(to_number(&t, 13), Some(finite(true, 4, 0)));
}

#[test]
fn to_js_string_canonical_spellings() {
    let t = SyntaxTree {
        nodes: vec![
            node(NodeKind::BooleanLit(true), vec![]),
            node(NodeKind::BooleanLit(false), vec![]),
            node(NodeKind::NullLit, vec![]),
            node(NodeKind::Ident(js("undefined")), vec![]),
            node(NodeKind::NumberLit(finite(true, 15, 1)), vec![]),
            node(NodeKind::BigIntLit(JsBigInt { neg: true, mag: 42 }), vec![]),
        ],
    };
    assert_eq!(to_js_string(&t, 0), Some(js("true")));
    assert_eq!(to_js_string(&t, 1), Some(js("false")));
    assert_eq!(to_js_string(&t, 2), Some(js("null")));
    assert_eq!(to_js_string(&t, 3), Some(js("undefined")));
    assert_eq!(to_js_string(&t, 4), Some(js("-1.5")));
    assert_eq!(to_js_string(&t, 5), Some(js("-42")));
}
