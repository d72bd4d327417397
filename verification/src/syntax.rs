//! The syntax tree, as the hint engine reads it.
//!
//! Every node of the tree has a kind and its children in document order. The
//! kinds that can carry hints hold the parts that the engine looks at, with
//! what the semantic layer knows of them; every other node is
//! `NodeKind::Other`.

use vstd::prelude::*;
use crate::hint::TextRange;
use crate::pat::Pat;

verus! {

/// A callable's signature: the names of its parameters, in declaration
/// order. A method's receiver comes first. A parameter that is not a plain
/// name has the empty name.
#[derive(Debug)]
pub struct FunctionSignature {
    pub parameter_names: Vec<String>,
}

/// What the callee of a call resolves to, with the signature that the
/// semantic layer gives for it, where it gives one.
#[derive(Debug)]
pub enum CallableDef {
    FunctionId(FunctionSignature),
    StructId(Option<FunctionSignature>),
    EnumVariantId(Option<FunctionSignature>),
}

/// An argument of a call.
#[derive(Debug)]
pub struct Arg {
    /// The source span of the argument expression.
    pub range: TextRange,
    /// Whether the argument is a literal.
    pub is_literal: bool,
}

/// A call `callee(args)`.
#[derive(Debug)]
pub struct CallExpr {
    pub arg_list: Option<Vec<Arg>>,
    /// None where the callee is missing, has no type, or has a type that is
    /// not callable.
    pub callable: Option<CallableDef>,
}

/// A call `receiver.method(args)`.
#[derive(Debug)]
pub struct MethodCallExpr {
    pub arg_list: Option<Vec<Arg>>,
    /// The signature of the method that the call resolves to.
    pub method: Option<FunctionSignature>,
}

/// A parameter of a closure.
#[derive(Debug)]
pub struct Param {
    pub has_ascribed_type: bool,
    pub pat: Option<Pat>,
}

/// A closure `|params| body`.
#[derive(Debug)]
pub struct LambdaExpr {
    pub param_list: Option<Vec<Param>>,
}

/// A loop `for pat in iterable`.
#[derive(Debug)]
pub struct ForExpr {
    pub pat: Option<Pat>,
}

/// The condition of an `if` or a `while`; it holds a pattern where it is
/// written with `let`.
#[derive(Debug)]
pub struct Condition {
    pub pat: Option<Pat>,
}

/// An `if`, with its condition.
#[derive(Debug)]
pub struct IfExpr {
    pub condition: Option<Condition>,
}

/// A `while`, with its condition.
#[derive(Debug)]
pub struct WhileExpr {
    pub condition: Option<Condition>,
}

/// An arm `pat => expr` of a `match`.
#[derive(Debug)]
pub struct MatchArm {
    pub pat: Option<Pat>,
}

/// The arms between the braces of a `match`.
#[derive(Debug)]
pub struct MatchArmList {
    pub arms: Vec<MatchArm>,
}

/// A statement `let pat: type = initializer;`.
#[derive(Debug)]
pub struct LetStmt {
    pub has_ascribed_type: bool,
    pub pat: Option<Pat>,
}

/// An expression. `Other` stands for every expression that carries no hint.
#[derive(Debug)]
pub enum Expr {
    CallExpr(CallExpr),
    MethodCallExpr(MethodCallExpr),
    LambdaExpr(LambdaExpr),
    ForExpr(ForExpr),
    IfExpr(IfExpr),
    WhileExpr(WhileExpr),
    Other,
}

/// What a node of the tree is. `Other` stands for every node that carries no
/// hint: items, types, tokens of their own, and the like.
#[derive(Debug)]
pub enum NodeKind {
    LetStmt(LetStmt),
    MatchArmList(MatchArmList),
    Expr(Expr),
    Other,
}

/// A node of the syntax tree with the nodes below it, in document order.
#[derive(Debug)]
pub struct SyntaxNode {
    pub kind: NodeKind,
    pub children: Vec<SyntaxNode>,
}

/// A parsed file: the root of its syntax tree.
#[derive(Debug)]
pub struct SourceFile {
    pub syntax: SyntaxNode,
}

impl SyntaxNode {
    /// The node and all nodes below it, in document order.
    pub open spec fn descendants(self) -> Seq<SyntaxNode>
        decreases self,
    {
        seq![self] + descendants_of(self.children@)
    }
}

/// The descendants of each of `nodes` in turn.
pub open spec fn descendants_of(nodes: Seq<SyntaxNode>) -> Seq<SyntaxNode>
    decreases nodes,
{
    if nodes.len() == 0 {
        Seq::empty()
    } else {
        descendants_of(nodes.drop_last()) + nodes.last().descendants()
    }
}

} // verus!
