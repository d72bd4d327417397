//! What holds of the hints for every input.

use vstd::prelude::*;
use crate::dispatch::{
    condition_pat, hints_of, lambda_hints, match_arm_hints, optional_pat_hints,
};
use crate::hint::{InlayHint, InlayHintView, InlayKind};
use crate::leaf_pats::{
    leaf_pats, leaf_pats_by_level, lemma_level_of_one, level_leaves, next_level,
};
use crate::param_hints::{min_len, paired_hints, param_hint};
use crate::pat::{
    explicit_field_pats, shorthand_targets, BindPat, Pat, RecordFieldPat, RecordFieldPatList,
};
use crate::syntax::{Arg, Expr, MatchArm, NodeKind, Param, SourceFile, SyntaxNode};
use crate::type_hints::{
    hinted_leaves, lemma_hinted_leaves, lemma_leaf_root, lemma_leaves_are_leaves, type_hints,
};

verus! {

/// A `let` with a written type gives no hint, whatever its pattern binds.
pub proof fn lemma_annotated_let_has_no_hints(node: SyntaxNode)
    requires
        node.kind matches NodeKind::LetStmt(it) && it.has_ascribed_type,
    ensures
        node.hints() == Seq::<InlayHintView>::empty(),
        node.is_passed_over(),
{
}

/// Where the root is skipped, a leaf is hinted if and only if it is a leaf of
/// the pattern and is not the root itself; the hinted leaves keep the order
/// of the leaves.
pub proof fn lemma_skip_root(root: Pat)
    ensures
        forall|leaf: BindPat|
            hinted_leaves(root, true).contains(leaf) <==> leaf_pats(root).contains(leaf)
                && Pat::BindPat(leaf) != root,
        root.as_leaf() is Some ==> hinted_leaves(root, true) == Seq::<BindPat>::empty(),
        root.as_leaf() is None ==> hinted_leaves(root, true) == leaf_pats(root),
        hinted_leaves(root, false) == leaf_pats(root),
{
    lemma_hinted_leaves(root, true);
    lemma_hinted_leaves(root, false);
    if root.as_leaf() is Some {
        lemma_leaf_root(root);
        let only = root.as_leaf().unwrap();
        assert forall|leaf: BindPat|
            hinted_leaves(root, true).contains(leaf) <==> leaf_pats(root).contains(leaf)
                && Pat::BindPat(leaf) != root by {
            if leaf_pats(root).contains(leaf) {
                let i = choose|i: int| 0 <= i < leaf_pats(root).len() && leaf_pats(root)[i] == leaf;
                assert(leaf == only);
            }
        }
    } else {
        lemma_leaves_are_leaves(seq![root]);
        assert forall|leaf: BindPat|
            hinted_leaves(root, true).contains(leaf) <==> leaf_pats(root).contains(leaf)
                && Pat::BindPat(leaf) != root by {
            if leaf_pats(root).contains(leaf) {
                let i = choose|i: int| 0 <= i < leaf_pats(root).len() && leaf_pats(root)[i] == leaf;
                assert(leaf_pats(root)[i].is_leaf());
            }
        }
    }
}

/// The leaves that stand in a level made of two parts are those of the one
/// part, then those of the other.
pub proof fn lemma_level_leaves_add(a: Seq<Pat>, b: Seq<Pat>)
    ensures
        level_leaves(a + b) == level_leaves(a) + level_leaves(b),
    decreases a.len(),
{
    if a.len() == 0 {
        assert(a + b =~= b);
        assert(level_leaves(a) + level_leaves(b) =~= level_leaves(b));
    } else {
        lemma_level_leaves_add(a.drop_first(), b);
        assert((a + b).drop_first() =~= a.drop_first() + b);
        assert((a + b).first() == a.first());
        assert(level_leaves(a + b) =~= level_leaves(a) + level_leaves(b));
    }
}

proof fn lemma_explicit_fields_are_no_leaves(fields: Seq<RecordFieldPat>)
    ensures
        level_leaves(explicit_field_pats(fields)) == Seq::<BindPat>::empty(),
    decreases fields.len(),
{
    if fields.len() != 0 {
        let rest = explicit_field_pats(fields.drop_last());
        lemma_explicit_fields_are_no_leaves(fields.drop_last());
        match fields.last().pat {
            Some(p) => {
                if !(p is BindPat) {
                    lemma_level_leaves_add(rest, seq![p]);
                    assert(rest.push(p) =~= rest + seq![p]);
                    lemma_level_of_one(p);
                    assert(level_leaves(rest.push(p)) =~= Seq::<BindPat>::empty());
                }
            },
            None => {},
        }
    }
}

proof fn lemma_leaf_shorthand(binds: Seq<BindPat>)
    requires
        forall|i: int| 0 <= i < binds.len() ==> (#[trigger] binds[i]).is_leaf(),
    ensures
        level_leaves(shorthand_targets(binds)) == binds,
    decreases binds.len(),
{
    let targets = shorthand_targets(binds);
    if binds.len() == 0 {
        assert(level_leaves(targets) =~= binds);
    } else {
        lemma_leaf_shorthand(binds.drop_first());
        assert(targets.drop_first() =~= shorthand_targets(binds.drop_first()));
        assert(targets.first() == Pat::BindPat(binds.first()));
        assert(binds.first().is_leaf());
        assert(level_leaves(targets) =~= binds);
    }
}

/// The level below a level made of two parts is what lies below the one
/// part, then what lies below the other.
pub proof fn lemma_next_level_add(a: Seq<Pat>, b: Seq<Pat>)
    ensures
        next_level(a + b) == next_level(a) + next_level(b),
    decreases a.len(),
{
    if a.len() == 0 {
        assert(a + b =~= b);
        assert(next_level(a) + next_level(b) =~= next_level(b));
    } else {
        lemma_next_level_add(a.drop_first(), b);
        assert((a + b).drop_first() =~= a.drop_first() + b);
        assert((a + b).first() == a.first());
        assert(next_level(a + b) =~= next_level(a) + next_level(b));
    }
}

proof fn lemma_leaf_shorthand_expands_to_nothing(binds: Seq<BindPat>)
    requires
        forall|i: int| 0 <= i < binds.len() ==> (#[trigger] binds[i]).is_leaf(),
    ensures
        next_level(shorthand_targets(binds)) == Seq::<Pat>::empty(),
    decreases binds.len(),
{
    let targets = shorthand_targets(binds);
    if binds.len() != 0 {
        lemma_leaf_shorthand_expands_to_nothing(binds.drop_first());
        assert(targets.drop_first() =~= shorthand_targets(binds.drop_first()));
        assert(targets.first() == Pat::BindPat(binds.first()));
        assert(binds.first().is_leaf());
        assert(next_level(targets) =~= Seq::<Pat>::empty());
    }
}

/// In a record pattern each field in shorthand is a leaf of its own, in the
/// place where it is written. The pattern expands to its written-out fields
/// that are no bare name, then to what stands for its shorthand fields; its
/// leaves begin with those among the latter, and all others lie deeper.
/// Where no shorthand field has a pattern nested in it, the leaves are the
/// shorthand bindings, once each and in their order, and then the leaves
/// below the written-out fields: a written-out `field: name` gives no leaf,
/// and a shorthand field is not taken up a second time.
pub proof fn lemma_record_shorthand_leaves(list: RecordFieldPatList)
    ensures
        ({
            let record = Pat::RecordPat(Some(list));
            let written = explicit_field_pats(list.record_field_pats@);
            let shorthand = shorthand_targets(list.bind_pats@);
            &&& record.expansion() == written + shorthand
            &&& leaf_pats(record) == level_leaves(shorthand) + leaf_pats_by_level(
                next_level(written + shorthand),
            )
            &&& (forall|i: int|
                0 <= i < list.bind_pats@.len() ==> (#[trigger] list.bind_pats@[i]).is_leaf())
                ==> leaf_pats(record) == list.bind_pats@ + leaf_pats_by_level(next_level(written))
        }),
{
    let record = Pat::RecordPat(Some(list));
    let written = explicit_field_pats(list.record_field_pats@);
    let shorthand = shorthand_targets(list.bind_pats@);
    let level = seq![record];
    let below = record.expansion();
    lemma_level_of_one(record);
    lemma_level_leaves_add(written, shorthand);
    lemma_explicit_fields_are_no_leaves(list.record_field_pats@);
    assert(level_leaves(below) =~= level_leaves(shorthand));
    assert(leaf_pats_by_level(level) =~= leaf_pats_by_level(below));
    if below.len() == 0 {
        assert(shorthand =~= Seq::<Pat>::empty());
        assert(next_level(below) =~= Seq::<Pat>::empty());
        assert(leaf_pats(record) =~= level_leaves(shorthand) + leaf_pats_by_level(
            next_level(below),
        ));
    } else {
        assert(leaf_pats_by_level(below) == level_leaves(below) + leaf_pats_by_level(
            next_level(below),
        ));
    }
    if forall|i: int| 0 <= i < list.bind_pats@.len() ==> (#[trigger] list.bind_pats@[i]).is_leaf() {
        lemma_leaf_shorthand(list.bind_pats@);
        lemma_leaf_shorthand_expands_to_nothing(list.bind_pats@);
        lemma_next_level_add(written, shorthand);
        assert(next_level(written) + Seq::<Pat>::empty() =~= next_level(written));
    }
}

/// Every hint of the first `count` pairs is a parameter hint with a name
/// that is not empty, on the span of one of the first `count` arguments,
/// which is a literal; and there are at most `count` of them.
pub proof fn lemma_paired_hints(parameters: Seq<String>, args: Seq<Arg>, count: nat)
    requires
        count <= parameters.len(),
        count <= args.len(),
    ensures
        paired_hints(parameters, args, count).len() <= count,
        forall|i: int|
            0 <= i < paired_hints(parameters, args, count).len() ==> {
                let hint = #[trigger] paired_hints(parameters, args, count)[i];
                &&& hint.kind == InlayKind::ParameterHint
                &&& hint.label.len() > 0
                &&& exists|j: int|
                    0 <= j < count && (#[trigger] args[j]).is_literal && hint.range
                        == args[j].range && hint.label == parameters[j]@
            },
    decreases count,
{
    if count > 0 {
        let before = (count - 1) as nat;
        let rest = paired_hints(parameters, args, before);
        lemma_paired_hints(parameters, args, before);
        assert forall|i: int| 0 <= i < paired_hints(parameters, args, count).len() implies {
            let hint = #[trigger] paired_hints(parameters, args, count)[i];
            &&& hint.kind == InlayKind::ParameterHint
            &&& hint.label.len() > 0
            &&& exists|j: int|
                0 <= j < count && (#[trigger] args[j]).is_literal && hint.range == args[j].range
                    && hint.label == parameters[j]@
        } by {
            let hint = paired_hints(parameters, args, count)[i];
            if i < rest.len() {
                assert(hint == rest[i]);
                let j = choose|j: int|
                    0 <= j < before && (#[trigger] args[j]).is_literal && hint.range
                        == args[j].range && hint.label == parameters[j]@;
                assert(0 <= j < count && args[j].is_literal);
            } else {
                assert(param_hint(parameters[count - 1], args[count - 1]) == Some(hint));
                assert(args[count - 1].is_literal);
            }
        }
    }
}

/// A call gets no more hints than it has arguments, and no more than its
/// callee has parameters, the receiver of a method not counted; each hint
/// stands on an argument that is a literal. What is no call, or a call
/// without an argument list or a resolved callee, gets none.
pub proof fn lemma_param_name_hints_bounded(expr: Expr)
    ensures
        match (expr.args(), expr.fn_signature()) {
            (Some(args), Some(signature)) => {
                &&& expr.param_name_hints().len() <= args.len()
                &&& expr.param_name_hints().len() <= signature.parameter_names@.len()
                    - expr.receivers(signature)
                &&& forall|i: int|
                    0 <= i < expr.param_name_hints().len() ==> {
                        let hint = #[trigger] expr.param_name_hints()[i];
                        &&& hint.kind == InlayKind::ParameterHint
                        &&& hint.label.len() > 0
                        &&& exists|j: int|
                            0 <= j < args.len() && (#[trigger] args[j]).is_literal && hint.range
                                == args[j].range
                    }
            },
            _ => expr.param_name_hints() == Seq::<InlayHintView>::empty(),
        },
{
    match (expr.args(), expr.fn_signature()) {
        (Some(args), Some(signature)) => {
            let parameters = expr.hinted_parameters(signature);
            let count = min_len(parameters, args);
            lemma_paired_hints(parameters, args, count);
            assert forall|i: int| 0 <= i < expr.param_name_hints().len() implies {
                let hint = #[trigger] expr.param_name_hints()[i];
                &&& hint.kind == InlayKind::ParameterHint
                &&& hint.label.len() > 0
                &&& exists|j: int|
                    0 <= j < args.len() && (#[trigger] args[j]).is_literal && hint.range
                        == args[j].range
            } by {
                let hint = paired_hints(parameters, args, count)[i];
                let j = choose|j: int|
                    0 <= j < count && (#[trigger] args[j]).is_literal && hint.range
                        == args[j].range && hint.label == parameters[j]@;
                assert(0 <= j < args.len() && args[j].is_literal);
            }
        },
        _ => {},
    }
}

/// Whether every parameter hint among `hints` has a label that is not
/// empty.
pub open spec fn parameter_hints_are_named(hints: Seq<InlayHintView>) -> bool {
    forall|i: int|
        0 <= i < hints.len() ==> ((#[trigger] hints[i]).kind == InlayKind::ParameterHint
            ==> hints[i].label.len() > 0)
}

proof fn lemma_named_add(a: Seq<InlayHintView>, b: Seq<InlayHintView>)
    requires
        parameter_hints_are_named(a),
        parameter_hints_are_named(b),
    ensures
        parameter_hints_are_named(a + b),
{
    assert forall|i: int|
        0 <= i < (a + b).len() && (#[trigger] (a + b)[i]).kind
            == InlayKind::ParameterHint implies (a + b)[i].label.len() > 0 by {
        if i < a.len() {
            assert((a + b)[i] == a[i]);
        } else {
            assert((a + b)[i] == b[i - a.len()]);
        }
    }
}

/// The hints of bindings are all type hints.
pub proof fn lemma_type_hints_kind(leaves: Seq<BindPat>)
    ensures
        forall|i: int|
            0 <= i < type_hints(leaves).len() ==> (#[trigger] type_hints(leaves)[i]).kind
                == InlayKind::TypeHint,
    decreases leaves.len(),
{
    if leaves.len() != 0 {
        lemma_type_hints_kind(leaves.drop_last());
    }
}

proof fn lemma_optional_pat_hints_named(pat: Option<Pat>, skip_root: bool)
    ensures
        parameter_hints_are_named(optional_pat_hints(pat, skip_root)),
{
    match pat {
        Some(pat) => lemma_type_hints_kind(hinted_leaves(pat, skip_root)),
        None => {},
    }
}

proof fn lemma_lambda_hints_named(params: Seq<Param>)
    ensures
        parameter_hints_are_named(lambda_hints(params)),
    decreases params.len(),
{
    if params.len() != 0 {
        lemma_lambda_hints_named(params.drop_last());
        lemma_optional_pat_hints_named(params.last().pat, false);
        lemma_named_add(lambda_hints(params.drop_last()), params.last().hints());
    }
}

proof fn lemma_match_arm_hints_named(arms: Seq<MatchArm>)
    ensures
        parameter_hints_are_named(match_arm_hints(arms)),
    decreases arms.len(),
{
    if arms.len() != 0 {
        lemma_match_arm_hints_named(arms.drop_last());
        lemma_optional_pat_hints_named(arms.last().pat, true);
        lemma_named_add(
            match_arm_hints(arms.drop_last()),
            optional_pat_hints(arms.last().pat, true),
        );
    }
}

proof fn lemma_node_hints_named(node: SyntaxNode)
    ensures
        parameter_hints_are_named(node.hints()),
{
    match node.kind {
        NodeKind::LetStmt(it) => lemma_optional_pat_hints_named(it.pat, false),
        NodeKind::MatchArmList(it) => lemma_match_arm_hints_named(it.arms@),
        NodeKind::Expr(expr) => match expr {
            Expr::LambdaExpr(it) => match it.param_list {
                Some(params) => lemma_lambda_hints_named(params@),
                None => {},
            },
            Expr::ForExpr(it) => lemma_optional_pat_hints_named(it.pat, false),
            Expr::IfExpr(it) => lemma_optional_pat_hints_named(condition_pat(it.condition), true),
            Expr::WhileExpr(it) => lemma_optional_pat_hints_named(
                condition_pat(it.condition),
                true,
            ),
            Expr::CallExpr(_) => lemma_param_name_hints_bounded(expr),
            Expr::MethodCallExpr(_) => lemma_param_name_hints_bounded(expr),
            Expr::Other => {},
        },
        NodeKind::Other => {},
    }
}

proof fn lemma_hints_of_named(nodes: Seq<SyntaxNode>)
    ensures
        parameter_hints_are_named(hints_of(nodes)),
    decreases nodes.len(),
{
    if nodes.len() != 0 {
        lemma_hints_of_named(nodes.drop_last());
        lemma_node_hints_named(nodes.last());
        lemma_named_add(hints_of(nodes.drop_last()), nodes.last().hints());
    }
}

/// No parameter hint of a file has an empty label.
pub proof fn lemma_parameter_hints_are_named(file: SourceFile)
    ensures
        parameter_hints_are_named(file.hints()),
{
    lemma_hints_of_named(file.syntax.descendants());
}

/// The label of a type hint is the text that the semantic layer gave for
/// the binding, unchanged, and its span is the binding's.
pub proof fn lemma_type_hint_label(leaf: BindPat)
    ensures
        match leaf.type_hint() {
            Some(hint) => leaf.ty matches Some(ty) && !ty.is_unknown && hint.label == ty.label@
                && hint.range == leaf.range && hint.kind == InlayKind::TypeHint,
            None => leaf.ty matches Some(ty) ==> ty.is_unknown,
        },
{
}

/// Two runs on the same file give the same hints in the same order.
pub proof fn lemma_inlay_hints_deterministic(
    file: SourceFile,
    first: Vec<InlayHint>,
    second: Vec<InlayHint>,
)
    requires
        first.deep_view() == file.hints(),
        second.deep_view() == file.hints(),
    ensures
        first.deep_view() == second.deep_view(),
{
}

/// A node that is passed over gives no hint.
pub proof fn lemma_passed_over_has_no_hints(node: SyntaxNode)
    requires
        node.is_passed_over(),
    ensures
        node.hints() == Seq::<InlayHintView>::empty(),
{
}

} // verus!
