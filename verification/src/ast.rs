use vstd::prelude::*;
use crate::number::JsNumber;
use crate::big_int::JsBigInt;
use crate::span::Span;
use crate::text::JsString;

verus! {

/// The variant of a syntax-tree node. The tagged union is closed so every
/// query matches exhaustively; constructs none of the queries inspect are
/// carried by `Other`, whose children are still traversed.
#[derive(Debug)]
pub enum NodeKind {
    NumberLit(JsNumber),
    StringLit(JsString),
    BooleanLit(bool),
    NullLit,
    BigIntLit(JsBigInt),
    /// An identifier reference; `undefined` is statically the undefined value.
    Ident(JsString),
    /// A `#name` inside a class body.
    PrivateIdent(JsString),
    /// One child: the operand.
    UnaryPlus,
    /// One child: the operand.
    UnaryMinus,
    /// Two children: the operands.
    BinaryAdd,
    BinarySub,
    BinaryMul,
    /// A static member access; the payload is the property name, the child
    /// the object expression.
    MemberExpr(JsString),
    /// Children: the callee, then the arguments.
    CallExpr,
    /// Children: the properties.
    ObjectExpr,
    /// Children: key, then value.
    ObjectProperty { computed: bool },
    /// Children: formal parameters, then the body. An arrow function with
    /// `expression_body` has an expression, not a block, as its body.
    Function { name: Option<JsString>, is_arrow: bool, expression_body: bool },
    ReturnStatement { has_argument: bool },
    /// A name in binding position.
    BindingIdent(JsString),
    /// Children: properties (`ObjectPatternProp`) and rest elements.
    ObjectPattern,
    /// One child: the bound value pattern (the key binds nothing).
    ObjectPatternProp,
    /// Children: the elements, with `Hole` for an elision.
    ArrayPattern,
    Hole,
    /// Children: the pattern, then the default-value expression.
    AssignmentPattern,
    /// One child: the pattern.
    RestElement,
    /// Children: the parameter patterns.
    FormalParameters,
    /// Children: the pattern, then the initializer if any.
    VariableDeclarator,
    /// Children: the parameter pattern (if any), then the body.
    CatchClause,
    /// An import/export binding introducing the payload as a local name.
    ImportBinding(JsString),
    /// Children: the superclass expression when `has_super`, then the body.
    Class { name: Option<JsString>, has_super: bool },
    /// Children: the members.
    ClassBody,
    /// Children: key, then value (a function).
    MethodDefinition { computed: bool },
    /// Children: key, then the initializer when `has_value`.
    PropertyDefinition { computed: bool, has_value: bool },
    /// Any other construct; its children are traversed generically.
    Other,
}

/// One node of the arena: its variant, source span and child indices.
#[derive(Debug)]
pub struct Node {
    pub kind: NodeKind,
    pub span: Span,
    pub children: Vec<usize>,
}

/// A parsed unit's tree as an arena in depth-first pre-order: every child
/// index is strictly greater than its parent's, so walking the arena in
/// index order is the engine's pre-order traversal, and structural
/// recursion terminates on the distance to the end of the arena.
#[derive(Debug)]
pub struct SyntaxTree {
    pub nodes: Vec<Node>,
}

impl SyntaxTree {
    /// Well-formedness: children stay inside the arena and after their
    /// parent.
    pub open spec fn wf(self) -> bool {
        forall|i: int, k: int|
            0 <= i < self.nodes@.len() && 0 <= k < self.nodes@[i].children@.len() ==> i < #[trigger] self.nodes@[i].children@[k] < self.nodes@.len()
    }

    pub open spec fn len_spec(self) -> nat {
        self.nodes@.len()
    }

    pub fn node_count(&self) -> (n: usize)
        ensures
            n == self.len_spec(),
    {
        self.nodes.len()
    }
}

} // verus!
