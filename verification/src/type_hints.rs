//! Type hints for the leaf bindings of a pattern.

use vstd::prelude::*;
use crate::hint::{push_hint, InlayHint, InlayHintView, InlayKind};
use crate::leaf_pats::{
    bind_values, get_leaf_pats, leaf_pats, leaf_pats_by_level, lemma_level_of_one,
    lemma_next_level_smaller, level_leaves, next_level,
};
use crate::pat::{pats_size, BindPat, Pat};

verus! {

impl BindPat {
    /// The hint that a leaf binding gets: none where the semantic layer has
    /// no type for it or only the unresolved one, else the type's text on the
    /// binding's span.
    pub open spec fn type_hint(self) -> Option<InlayHintView> {
        match self.ty {
            Some(ty) => if ty.is_unknown {
                None
            } else {
                Some(
                    InlayHintView {
                        range: self.range,
                        kind: InlayKind::TypeHint,
                        label: ty.label@,
                    },
                )
            },
            None => None,
        }
    }
}

/// The leaves of `root` that are hinted: all of them, but for the root itself
/// where it is to be skipped.
pub open spec fn hinted_leaves(root: Pat, skip_root: bool) -> Seq<BindPat> {
    leaf_pats(root).filter(|leaf: BindPat| !skip_root || Pat::BindPat(leaf) != root)
}

/// The hints of `leaves`, in their order.
pub open spec fn type_hints(leaves: Seq<BindPat>) -> Seq<InlayHintView>
    decreases leaves.len(),
{
    if leaves.len() == 0 {
        Seq::empty()
    } else {
        let rest = type_hints(leaves.drop_last());
        match leaves.last().type_hint() {
            Some(hint) => rest.push(hint),
            None => rest,
        }
    }
}

/// The type hints that the pattern `root` gives rise to.
pub open spec fn pat_type_hints(root: Pat, skip_root: bool) -> Seq<InlayHintView> {
    type_hints(hinted_leaves(root, skip_root))
}

proof fn lemma_level_leaves_are_leaves(level: Seq<Pat>)
    ensures
        forall|i: int|
            0 <= i < level_leaves(level).len() ==> (#[trigger] level_leaves(level)[i]).is_leaf(),
    decreases level.len(),
{
    if level.len() != 0 {
        let rest = level_leaves(level.drop_first());
        lemma_level_leaves_are_leaves(level.drop_first());
        assert forall|i: int| 0 <= i < level_leaves(level).len() implies (#[trigger] level_leaves(
            level,
        )[i]).is_leaf() by {
            match level.first().as_leaf() {
                Some(b) => {
                    if i > 0 {
                        assert(level_leaves(level)[i] == rest[i - 1]);
                    }
                },
                None => {},
            }
        }
    }
}

/// No leaf has a pattern nested in it.
pub proof fn lemma_leaves_are_leaves(level: Seq<Pat>)
    ensures
        forall|i: int|
            0 <= i < leaf_pats_by_level(level).len() ==> (#[trigger] leaf_pats_by_level(
                level,
            )[i]).is_leaf(),
    decreases pats_size(level),
{
    if level.len() != 0 {
        let here = level_leaves(level);
        let below = leaf_pats_by_level(next_level(level));
        lemma_level_leaves_are_leaves(level);
        lemma_next_level_smaller(level);
        lemma_leaves_are_leaves(next_level(level));
        assert forall|i: int| 0 <= i < leaf_pats_by_level(level).len() implies (
        #[trigger] leaf_pats_by_level(level)[i]).is_leaf() by {
            if i < here.len() {
                assert(leaf_pats_by_level(level)[i] == here[i]);
            } else {
                assert(leaf_pats_by_level(level)[i] == below[i - here.len()]);
            }
        }
    }
}

/// A pattern that is a leaf has itself as its one leaf.
pub proof fn lemma_leaf_root(root: Pat)
    requires
        root.as_leaf() is Some,
    ensures
        leaf_pats(root) == seq![root.as_leaf().unwrap()],
{
    lemma_level_of_one(root);
    assert(leaf_pats_by_level(next_level(seq![root])) =~= Seq::<BindPat>::empty());
    assert(leaf_pats(root) =~= seq![root.as_leaf().unwrap()]);
}

proof fn lemma_filter_keeps_all<A>(s: Seq<A>, pred: spec_fn(A) -> bool)
    requires
        forall|i: int| 0 <= i < s.len() ==> pred(#[trigger] s[i]),
    ensures
        s.filter(pred) == s,
    decreases s.len(),
{
    reveal(Seq::filter);
    if s.len() != 0 {
        lemma_filter_keeps_all(s.drop_last(), pred);
        assert(s.drop_last().push(s.last()) =~= s);
    }
}

/// Skipping the root takes away the root where it is itself a leaf, and then
/// nothing is left; in every other case all leaves stay.
pub proof fn lemma_hinted_leaves(root: Pat, skip_root: bool)
    ensures
        hinted_leaves(root, skip_root) == if skip_root && root.as_leaf() is Some {
            Seq::<BindPat>::empty()
        } else {
            leaf_pats(root)
        },
{
    let pred = |leaf: BindPat| !skip_root || Pat::BindPat(leaf) != root;
    if skip_root && root.as_leaf() is Some {
        lemma_leaf_root(root);
        let leaf = root.as_leaf().unwrap();
        reveal_with_fuel(Seq::filter, 2);
        assert(seq![leaf].drop_last() =~= Seq::<BindPat>::empty());
        assert(!pred(leaf));
        assert(seq![leaf].filter(pred) =~= Seq::<BindPat>::empty());
    } else {
        lemma_leaves_are_leaves(seq![root]);
        assert forall|i: int| 0 <= i < leaf_pats(root).len() implies pred(
            #[trigger] leaf_pats(root)[i],
        ) by {
            assert(leaf_pats(root)[i].is_leaf());
        }
        lemma_filter_keeps_all(leaf_pats(root), pred);
    }
}

/// Appends the type hints of `root_pat` to `acc`: one for each of its leaf
/// bindings whose type is known, in breadth-first order. With
/// `skip_root_pat_hint` the root itself gets none.
pub fn get_pat_type_hints(acc: &mut Vec<InlayHint>, root_pat: &Pat, skip_root_pat_hint: bool)
    ensures
        final(acc).deep_view() == old(acc).deep_view() + pat_type_hints(
            *root_pat,
            skip_root_pat_hint,
        ),
{
    let leaves = get_leaf_pats(root_pat);
    let root_is_leaf = match root_pat {
        Pat::BindPat(bind) => bind.pat.is_none(),
        _ => false,
    };
    proof {
        lemma_hinted_leaves(*root_pat, skip_root_pat_hint);
    }
    if skip_root_pat_hint && root_is_leaf {
        return ;
    }
    let ghost hinted = bind_values(leaves@);
    let mut i: usize = 0;
    while i < leaves.len()
        invariant
            i <= leaves.len(),
            hinted == bind_values(leaves@),
            acc.deep_view() == old(acc).deep_view() + type_hints(hinted.take(i as int)),
        decreases leaves.len() - i,
    {
        let leaf = leaves[i];
        assert(hinted.take(i + 1).drop_last() =~= hinted.take(i as int));
        match &leaf.ty {
            Some(ty) => {
                if !ty.is_unknown {
                    push_hint(acc, InlayHint::type_hint(leaf.range, ty.label.clone()));
                }
            },
            None => {},
        }
        i += 1;
    }
    assert(hinted.take(i as int) =~= hinted);
}

} // verus!
