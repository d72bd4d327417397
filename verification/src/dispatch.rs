//! The hints of a node, and of a whole file.

use vstd::prelude::*;
use crate::hint::{InlayHint, InlayHintView};
use crate::param_hints::get_param_name_hints;
use crate::pat::Pat;
use crate::syntax::{
    descendants_of, Condition, Expr, MatchArm, NodeKind, Param, SourceFile, SyntaxNode,
};
use crate::type_hints::{get_pat_type_hints, pat_type_hints};

verus! {

/// The hints of a pattern that may be missing.
pub open spec fn optional_pat_hints(pat: Option<Pat>, skip_root: bool) -> Seq<InlayHintView> {
    match pat {
        Some(pat) => pat_type_hints(pat, skip_root),
        None => Seq::empty(),
    }
}

impl Param {
    /// The hints of a closure parameter: those of its pattern, unless its
    /// type is written.
    pub open spec fn hints(self) -> Seq<InlayHintView> {
        if self.has_ascribed_type {
            Seq::empty()
        } else {
            optional_pat_hints(self.pat, false)
        }
    }
}

/// The hints of the parameters of a closure, one parameter after the other.
pub open spec fn lambda_hints(params: Seq<Param>) -> Seq<InlayHintView>
    decreases params.len(),
{
    if params.len() == 0 {
        Seq::empty()
    } else {
        lambda_hints(params.drop_last()) + params.last().hints()
    }
}

/// The hints of the arms of a `match`, one arm after the other. The pattern
/// of an arm gets no hint for itself.
pub open spec fn match_arm_hints(arms: Seq<MatchArm>) -> Seq<InlayHintView>
    decreases arms.len(),
{
    if arms.len() == 0 {
        Seq::empty()
    } else {
        match_arm_hints(arms.drop_last()) + optional_pat_hints(arms.last().pat, true)
    }
}

/// The pattern that a condition binds, if the condition is there and is
/// written with `let`.
pub open spec fn condition_pat(condition: Option<Condition>) -> Option<Pat> {
    match condition {
        Some(condition) => condition.pat,
        None => None,
    }
}

impl SyntaxNode {
    /// The hints that the node itself gives rise to.
    pub open spec fn hints(self) -> Seq<InlayHintView> {
        match self.kind {
            NodeKind::LetStmt(it) => if it.has_ascribed_type {
                Seq::empty()
            } else {
                optional_pat_hints(it.pat, false)
            },
            NodeKind::MatchArmList(it) => match_arm_hints(it.arms@),
            NodeKind::Expr(expr) => match expr {
                Expr::LambdaExpr(it) => match it.param_list {
                    Some(params) => lambda_hints(params@),
                    None => Seq::empty(),
                },
                Expr::ForExpr(it) => optional_pat_hints(it.pat, false),
                Expr::IfExpr(it) => optional_pat_hints(condition_pat(it.condition), true),
                Expr::WhileExpr(it) => optional_pat_hints(condition_pat(it.condition), true),
                Expr::CallExpr(_) => expr.param_name_hints(),
                Expr::MethodCallExpr(_) => expr.param_name_hints(),
                Expr::Other => Seq::empty(),
            },
            NodeKind::Other => Seq::empty(),
        }
    }

    /// Whether the node is passed over before anything is asked of it: a
    /// `let` with a written type, or a `let`, `for`, `if` or `while` that
    /// lacks the pattern.
    pub open spec fn is_passed_over(self) -> bool {
        match self.kind {
            NodeKind::LetStmt(it) => it.has_ascribed_type || it.pat is None,
            NodeKind::Expr(Expr::ForExpr(it)) => it.pat is None,
            NodeKind::Expr(Expr::IfExpr(it)) => condition_pat(it.condition) is None,
            NodeKind::Expr(Expr::WhileExpr(it)) => condition_pat(it.condition) is None,
            _ => false,
        }
    }
}

/// The hints of `nodes`, one node after the other.
pub open spec fn hints_of(nodes: Seq<SyntaxNode>) -> Seq<InlayHintView>
    decreases nodes.len(),
{
    if nodes.len() == 0 {
        Seq::empty()
    } else {
        hints_of(nodes.drop_last()) + nodes.last().hints()
    }
}

impl SourceFile {
    /// The hints of the file: those of every node of its tree, in document
    /// order.
    pub open spec fn hints(self) -> Seq<InlayHintView> {
        hints_of(self.syntax.descendants())
    }
}

/// The hints of a sequence of nodes are those of its parts, one after the other.
pub proof fn lemma_hints_of_add(a: Seq<SyntaxNode>, b: Seq<SyntaxNode>)
    ensures
        hints_of(a + b) == hints_of(a) + hints_of(b),
    decreases b.len(),
{
    if b.len() != 0 {
        lemma_hints_of_add(a, b.drop_last());
        assert((a + b).drop_last() =~= a + b.drop_last());
    }
}

fn get_optional_pat_hints(acc: &mut Vec<InlayHint>, pat: &Option<Pat>, skip_root: bool) -> (done:
    Option<()>)
    ensures
        final(acc).deep_view() == old(acc).deep_view() + optional_pat_hints(*pat, skip_root),
        done is Some <==> *pat is Some,
{
    match pat {
        Some(pat) => {
            get_pat_type_hints(acc, pat, skip_root);
            Some(())
        },
        None => None,
    }
}

fn get_condition_hints(acc: &mut Vec<InlayHint>, condition: &Option<Condition>) -> (done: Option<
    (),
>)
    ensures
        final(acc).deep_view() == old(acc).deep_view() + optional_pat_hints(
            condition_pat(*condition),
            true,
        ),
        done is Some <==> condition_pat(*condition) is Some,
{
    match condition {
        Some(condition) => get_optional_pat_hints(acc, &condition.pat, true),
        None => None,
    }
}

fn get_lambda_hints(acc: &mut Vec<InlayHint>, params: &Vec<Param>)
    ensures
        final(acc).deep_view() == old(acc).deep_view() + lambda_hints(params@),
{
    let mut i: usize = 0;
    while i < params.len()
        invariant
            i <= params.len(),
            acc.deep_view() == old(acc).deep_view() + lambda_hints(params@.take(i as int)),
        decreases params.len() - i,
    {
        let closure_param = &params[i];
        assert(params@.take(i + 1).drop_last() =~= params@.take(i as int));
        if !closure_param.has_ascribed_type {
            get_optional_pat_hints(acc, &closure_param.pat, false);
        }
        i += 1;
    }
    assert(params@.take(i as int) =~= params@);
}

fn get_match_arm_hints(acc: &mut Vec<InlayHint>, arms: &Vec<MatchArm>)
    ensures
        final(acc).deep_view() == old(acc).deep_view() + match_arm_hints(arms@),
{
    let mut i: usize = 0;
    while i < arms.len()
        invariant
            i <= arms.len(),
            acc.deep_view() == old(acc).deep_view() + match_arm_hints(arms@.take(i as int)),
        decreases arms.len() - i,
    {
        let match_arm = &arms[i];
        assert(arms@.take(i + 1).drop_last() =~= arms@.take(i as int));
        get_optional_pat_hints(acc, &match_arm.pat, true);
        i += 1;
    }
    assert(arms@.take(i as int) =~= arms@);
}

/// Appends the hints of `node` to `acc`: type hints for the bindings of a
/// `let` without a written type, of closure parameters without one, of a
/// `for` loop, below the pattern of an `if let` or `while let` and below the
/// patterns of match arms; parameter hints for a call or a method call. A
/// node of any other kind gives none. The result is `None` where the node
/// was passed over.
pub fn get_inlay_hints(acc: &mut Vec<InlayHint>, node: &SyntaxNode) -> (done: Option<()>)
    ensures
        final(acc).deep_view() == old(acc).deep_view() + node.hints(),
        done is None <==> node.is_passed_over(),
{
    match &node.kind {
        NodeKind::LetStmt(it) => {
            if it.has_ascribed_type {
                return None;
            }
            get_optional_pat_hints(acc, &it.pat, false)
        },
        NodeKind::MatchArmList(it) => {
            get_match_arm_hints(acc, &it.arms);
            Some(())
        },
        NodeKind::Expr(expr) => match expr {
            Expr::LambdaExpr(it) => {
                match &it.param_list {
                    Some(param_list) => {
                        get_lambda_hints(acc, param_list);
                    },
                    None => {},
                }
                Some(())
            },
            Expr::ForExpr(it) => get_optional_pat_hints(acc, &it.pat, false),
            Expr::IfExpr(it) => get_condition_hints(acc, &it.condition),
            Expr::WhileExpr(it) => get_condition_hints(acc, &it.condition),
            Expr::CallExpr(_) => {
                get_param_name_hints(acc, expr);
                Some(())
            },
            Expr::MethodCallExpr(_) => {
                get_param_name_hints(acc, expr);
                Some(())
            },
            Expr::Other => Some(()),
        },
        NodeKind::Other => Some(()),
    }
}

/// Appends to `acc` the hints of `node` and of all nodes below it, in
/// document order.
fn collect_hints(acc: &mut Vec<InlayHint>, node: &SyntaxNode)
    ensures
        final(acc).deep_view() == old(acc).deep_view() + hints_of(node.descendants()),
    decreases node,
{
    get_inlay_hints(acc, node);
    assert(hints_of(seq![*node].drop_last()) =~= Seq::<InlayHintView>::empty());
    let mut i: usize = 0;
    while i < node.children.len()
        invariant
            i <= node.children.len(),
            acc.deep_view() == old(acc).deep_view() + (node.hints() + hints_of(
                descendants_of(node.children@.take(i as int)),
            )),
        decreases node.children.len() - i,
    {
        let child = &node.children[i];
        let ghost seen = descendants_of(node.children@.take(i as int));
        assert(node.children@.take(i + 1).drop_last() =~= node.children@.take(i as int));
        collect_hints(acc, child);
        proof {
            lemma_hints_of_add(seen, child.descendants());
        }
        i += 1;
    }
    assert(node.children@.take(i as int) =~= node.children@);
    proof {
        lemma_hints_of_add(seq![*node], descendants_of(node.children@));
    }
}

/// The hints of `file`: every node of its tree is visited once, in document
/// order, and gives its hints.
pub fn inlay_hints(file: &SourceFile) -> (res: Vec<InlayHint>)
    ensures
        res.deep_view() == file.hints(),
{
    let mut res: Vec<InlayHint> = Vec::new();
    collect_hints(&mut res, &file.syntax);
    res
}

} // verus!
