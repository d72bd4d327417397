//! The leaf bindings of a pattern, breadth first.

use vstd::prelude::*;
use std::collections::VecDeque;
use crate::pat::{
    binds_size, explicit_field_pats, fields_size, pats_size, shorthand_targets, BindPat, Pat,
    RecordFieldPat,
};

verus! {

/// The leaves that stand in `level` itself, left to right.
pub open spec fn level_leaves(level: Seq<Pat>) -> Seq<BindPat>
    decreases level.len(),
{
    if level.len() == 0 {
        Seq::empty()
    } else {
        let rest = level_leaves(level.drop_first());
        match level.first().as_leaf() {
            Some(b) => seq![b] + rest,
            None => rest,
        }
    }
}

/// The patterns one step below those of `level`, left to right.
pub open spec fn next_level(level: Seq<Pat>) -> Seq<Pat>
    decreases level.len(),
{
    if level.len() == 0 {
        Seq::empty()
    } else {
        level.first().expansion() + next_level(level.drop_first())
    }
}

/// The leaves at and below `level`: those of the level itself, then those of
/// the level below it, and so on down.
pub open spec fn leaf_pats_by_level(level: Seq<Pat>) -> Seq<BindPat>
    decreases pats_size(level),
    via leaf_pats_by_level_decreases
{
    if level.len() == 0 {
        Seq::empty()
    } else {
        level_leaves(level) + leaf_pats_by_level(next_level(level))
    }
}

#[via_fn]
proof fn leaf_pats_by_level_decreases(level: Seq<Pat>) {
    if level.len() != 0 {
        lemma_next_level_smaller(level);
    }
}

/// The leaf bindings of `root`, ordered by depth and, within one depth, from
/// left to right.
pub open spec fn leaf_pats(root: Pat) -> Seq<BindPat> {
    leaf_pats_by_level(seq![root])
}

/// What a worklist that holds `queue` still gives out: the front pattern is
/// taken off, its expansion goes to the back.
pub open spec fn leaf_pats_from(queue: Seq<Pat>) -> Seq<BindPat>
    decreases pats_size(queue),
    via leaf_pats_from_decreases
{
    if queue.len() == 0 {
        Seq::empty()
    } else {
        let rest = leaf_pats_from(queue.drop_first() + queue.first().expansion());
        match queue.first().as_leaf() {
            Some(b) => seq![b] + rest,
            None => rest,
        }
    }
}

#[via_fn]
proof fn leaf_pats_from_decreases(queue: Seq<Pat>) {
    if queue.len() != 0 {
        lemma_step_size(queue);
    }
}

/// The size of two sequences of patterns, one after the other, is the sum of
/// their sizes.
pub proof fn lemma_pats_size_add(a: Seq<Pat>, b: Seq<Pat>)
    ensures
        pats_size(a + b) == pats_size(a) + pats_size(b),
    decreases b.len(),
{
    if b.len() != 0 {
        lemma_pats_size_add(a, b.drop_last());
        assert((a + b).drop_last() =~= a + b.drop_last());
    }
}

/// A sequence of one pattern has the size of that pattern.
pub proof fn lemma_pats_size_one(p: Pat)
    ensures
        pats_size(seq![p]) == p.size(),
{
    assert(pats_size(seq![p].drop_last()) == 0);
}

proof fn lemma_explicit_fields_size(fields: Seq<RecordFieldPat>)
    ensures
        pats_size(explicit_field_pats(fields)) <= fields_size(fields),
    decreases fields.len(),
{
    if fields.len() != 0 {
        lemma_explicit_fields_size(fields.drop_last());
        let rest = explicit_field_pats(fields.drop_last());
        match fields.last().pat {
            Some(p) => {
                if !(p is BindPat) {
                    assert(rest.push(p).drop_last() =~= rest);
                }
            },
            None => {},
        }
    }
}

proof fn lemma_shorthand_size(binds: Seq<BindPat>)
    ensures
        pats_size(shorthand_targets(binds)) <= binds_size(binds),
    decreases binds.len(),
{
    if binds.len() != 0 {
        lemma_shorthand_size(binds.drop_last());
        assert(shorthand_targets(binds).drop_last() =~= shorthand_targets(binds.drop_last()));
        lemma_shorthand_target_size(binds.last());
    }
}

proof fn lemma_shorthand_target_size(b: BindPat)
    ensures
        b.shorthand_target().size() <= b.size(),
{
}

/// A pattern is larger than all that it expands to, taken together.
pub proof fn lemma_expansion_size(p: Pat)
    ensures
        pats_size(p.expansion()) < p.size(),
{
    match p {
        Pat::BindPat(b) => {
            match b.pat {
                Some(inner) => {
                    lemma_pats_size_one(*inner);
                    assert(b.size() == 1 + inner.size());
                },
                None => {
                    assert(b.size() == 1);
                },
            }
        },
        Pat::RecordPat(Some(list)) => {
            lemma_explicit_fields_size(list.record_field_pats@);
            lemma_shorthand_size(list.bind_pats@);
            lemma_pats_size_add(
                explicit_field_pats(list.record_field_pats@),
                shorthand_targets(list.bind_pats@),
            );
        },
        Pat::ParenPat(Some(inner)) => lemma_pats_size_one(*inner),
        Pat::RefPat(Some(inner)) => lemma_pats_size_one(*inner),
        _ => {},
    }
}

/// One level down there is less left than on the level itself.
pub proof fn lemma_next_level_smaller(level: Seq<Pat>)
    ensures
        pats_size(next_level(level)) <= pats_size(level),
        level.len() > 0 ==> pats_size(next_level(level)) < pats_size(level),
    decreases level.len(),
{
    if level.len() > 0 {
        let rest = level.drop_first();
        lemma_expansion_size(level.first());
        lemma_pats_size_add(level.first().expansion(), next_level(rest));
        lemma_next_level_smaller(rest);
        lemma_pats_size_add(seq![level.first()], rest);
        lemma_pats_size_one(level.first());
        assert(seq![level.first()] + rest =~= level);
    }
}

proof fn lemma_step_size(queue: Seq<Pat>)
    requires
        queue.len() > 0,
    ensures
        pats_size(queue.drop_first() + queue.first().expansion()) < pats_size(queue),
{
    lemma_expansion_size(queue.first());
    lemma_pats_size_add(queue.drop_first(), queue.first().expansion());
    lemma_pats_size_add(seq![queue.first()], queue.drop_first());
    lemma_pats_size_one(queue.first());
    assert(seq![queue.first()] + queue.drop_first() =~= queue);
}

/// A level of one pattern: its leaf is the pattern, if that is a leaf, and the
/// level below is what the pattern expands to.
pub proof fn lemma_level_of_one(p: Pat)
    ensures
        level_leaves(seq![p]) == match p.as_leaf() {
            Some(b) => seq![b],
            None => Seq::empty(),
        },
        next_level(seq![p]) == p.expansion(),
{
    let level = seq![p];
    assert(level_leaves(level.drop_first()) =~= Seq::<BindPat>::empty());
    assert(next_level(level.drop_first()) =~= Seq::<Pat>::empty());
}

/// A worklist whose front part is `front` first gives out the leaves that
/// stand in `front`, and by then holds the rest with all that `front` expands
/// to behind it.
pub proof fn lemma_worklist_front(front: Seq<Pat>, back: Seq<Pat>)
    ensures
        leaf_pats_from(front + back) == level_leaves(front) + leaf_pats_from(
            back + next_level(front),
        ),
    decreases front.len(),
{
    if front.len() != 0 {
        let first = front.first();
        let rest = front.drop_first();
        assert((front + back).drop_first() + first.expansion() =~= rest + (back
            + first.expansion()));
        lemma_worklist_front(rest, back + first.expansion());
        assert((back + first.expansion()) + next_level(rest) =~= back + next_level(front));
    }
}

/// The worklist gives out the leaves level by level.
pub proof fn lemma_worklist_by_level(level: Seq<Pat>)
    ensures
        leaf_pats_from(level) == leaf_pats_by_level(level),
    decreases pats_size(level),
{
    if level.len() != 0 {
        lemma_worklist_front(level, Seq::empty());
        lemma_next_level_smaller(level);
        lemma_worklist_by_level(next_level(level));
    }
}

/// The bindings that a vector of references points to.
pub open spec fn bind_values<'a>(refs: Seq<&'a BindPat>) -> Seq<BindPat> {
    Seq::new(refs.len(), |i: int| *refs[i])
}

/// An entry of the worklist: a pattern of the tree, or a shorthand field of a
/// record pattern, which stands for the pattern that wraps it.
enum Pending<'a> {
    Pat(&'a Pat),
    Bind(&'a BindPat),
}

impl<'a> Pending<'a> {
    spec fn pat(self) -> Pat {
        match self {
            Pending::Pat(p) => *p,
            Pending::Bind(b) => Pat::BindPat(*b),
        }
    }
}

spec fn pending_pats<'a>(queue: Seq<Pending<'a>>) -> Seq<Pat> {
    Seq::new(queue.len(), |i: int| queue[i].pat())
}

fn push_pending<'a>(queue: &mut VecDeque<Pending<'a>>, item: Pending<'a>)
    ensures
        pending_pats(final(queue)@) == pending_pats(old(queue)@).push(item.pat()),
{
    queue.push_back(item);
}

fn push_nested<'a>(queue: &mut VecDeque<Pending<'a>>, pat: &'a Option<Box<Pat>>)
    ensures
        pending_pats(final(queue)@) == pending_pats(old(queue)@) + match *pat {
            Some(inner) => seq![*inner],
            None => Seq::empty(),
        },
{
    match pat {
        Some(inner) => {
            push_pending(queue, Pending::Pat(&**inner));
        },
        None => {},
    }
}

fn push_pats<'a>(queue: &mut VecDeque<Pending<'a>>, pats: &'a Vec<Pat>)
    ensures
        pending_pats(final(queue)@) == pending_pats(old(queue)@) + pats@,
{
    let mut i: usize = 0;
    while i < pats.len()
        invariant
            i <= pats.len(),
            pending_pats(queue@) == pending_pats(old(queue)@) + pats@.take(i as int),
        decreases pats.len() - i,
    {
        push_pending(queue, Pending::Pat(&pats[i]));
        i += 1;
    }
}

fn push_explicit_fields<'a>(queue: &mut VecDeque<Pending<'a>>, fields: &'a Vec<RecordFieldPat>)
    ensures
        pending_pats(final(queue)@) == pending_pats(old(queue)@) + explicit_field_pats(fields@),
{
    let mut i: usize = 0;
    while i < fields.len()
        invariant
            i <= fields.len(),
            pending_pats(queue@) == pending_pats(old(queue)@) + explicit_field_pats(
                fields@.take(i as int),
            ),
        decreases fields.len() - i,
    {
        assert(fields@.take(i + 1).drop_last() =~= fields@.take(i as int));
        match &fields[i].pat {
            Some(p) => {
                match p {
                    Pat::BindPat(_) => {},
                    _ => {
                        push_pending(queue, Pending::Pat(p));
                    },
                }
            },
            None => {},
        }
        i += 1;
    }
    assert(fields@.take(i as int) =~= fields@);
}

fn push_shorthand<'a>(queue: &mut VecDeque<Pending<'a>>, binds: &'a Vec<BindPat>)
    ensures
        pending_pats(final(queue)@) == pending_pats(old(queue)@) + shorthand_targets(binds@),
{
    let mut i: usize = 0;
    while i < binds.len()
        invariant
            i <= binds.len(),
            pending_pats(queue@) == pending_pats(old(queue)@) + shorthand_targets(
                binds@.take(i as int),
            ),
        decreases binds.len() - i,
    {
        let bind = &binds[i];
        match &bind.pat {
            Some(inner) => {
                push_pending(queue, Pending::Pat(&**inner));
            },
            None => {
                push_pending(queue, Pending::Bind(bind));
            },
        }
        i += 1;
    }
}

/// Takes up a binding: its nested pattern goes to the worklist, and without
/// one the binding is a leaf.
fn visit_bind<'a>(
    queue: &mut VecDeque<Pending<'a>>,
    leaves: &mut Vec<&'a BindPat>,
    bind: &'a BindPat,
)
    ensures
        pending_pats(final(queue)@) == pending_pats(old(queue)@) + Pat::BindPat(*bind).expansion(),
        bind_values(final(leaves)@) == bind_values(old(leaves)@) + match Pat::BindPat(
            *bind,
        ).as_leaf() {
            Some(b) => seq![b],
            None => Seq::empty(),
        },
{
    match &bind.pat {
        Some(inner) => {
            push_pending(queue, Pending::Pat(&**inner));
        },
        None => {
            leaves.push(bind);
        },
    }
}

/// The leaf bindings of `root_pat`, breadth first: a worklist starts with the
/// root; the pattern at its front is taken off, a binding without a nested
/// pattern is a leaf, and what any other pattern expands to goes to the back.
pub fn get_leaf_pats<'a>(root_pat: &'a Pat) -> (leaves: Vec<&'a BindPat>)
    ensures
        bind_values(leaves@) == leaf_pats(*root_pat),
{
    let mut pats_to_process: VecDeque<Pending<'a>> = VecDeque::new();
    push_pending(&mut pats_to_process, Pending::Pat(root_pat));
    let mut leaves: Vec<&'a BindPat> = Vec::new();

    while pats_to_process.len() > 0
        invariant
            bind_values(leaves@) + leaf_pats_from(pending_pats(pats_to_process@))
                == leaf_pats_from(seq![*root_pat]),
        decreases pats_size(pending_pats(pats_to_process@)),
    {
        let ghost before = pending_pats(pats_to_process@);
        let ghost found = bind_values(leaves@);
        let item = pats_to_process.pop_front().unwrap();
        proof {
            lemma_step_size(before);
        }
        match item {
            Pending::Bind(bind) => {
                visit_bind(&mut pats_to_process, &mut leaves, bind);
            },
            Pending::Pat(pat) => {
                match pat {
                    Pat::BindPat(bind) => {
                        visit_bind(&mut pats_to_process, &mut leaves, bind);
                    },
                    Pat::OrPat(pats) => {
                        push_pats(&mut pats_to_process, pats);
                    },
                    Pat::TuplePat(args) => {
                        push_pats(&mut pats_to_process, args);
                    },
                    Pat::RecordPat(field_list) => {
                        match field_list {
                            Some(list) => {
                                push_explicit_fields(&mut pats_to_process, &list.record_field_pats);
                                push_shorthand(&mut pats_to_process, &list.bind_pats);
                            },
                            None => {},
                        }
                    },
                    Pat::TupleStructPat(args) => {
                        push_pats(&mut pats_to_process, args);
                    },
                    Pat::ParenPat(inner) => {
                        push_nested(&mut pats_to_process, inner);
                    },
                    Pat::RefPat(inner) => {
                        push_nested(&mut pats_to_process, inner);
                    },
                    Pat::Other => {},
                }
            },
        }
        assert(pending_pats(pats_to_process@) == before.drop_first() + before.first().expansion());
        assert(bind_values(leaves@) == found + match before.first().as_leaf() {
            Some(b) => seq![b],
            None => Seq::empty(),
        });
    }
    proof {
        lemma_worklist_by_level(seq![*root_pat]);
    }
    leaves
}

} // verus!
