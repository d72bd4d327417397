//! Binding patterns, as the hint engine reads them.
//!
//! A pattern is a tree. Only the shapes that the engine takes apart have a
//! variant of their own; every other pattern (a literal, a wildcard, a range,
//! a path) is `Pat::Other` and is never looked into.

use vstd::prelude::*;
use crate::hint::TextRange;

verus! {

/// What the semantic layer inferred for a binding: whether it is the
/// distinguished unresolved type, and the text it is displayed with.
#[derive(Debug)]
pub struct InferredType {
    pub is_unknown: bool,
    pub label: String,
}

/// A name binding, `name` or `name @ pat`.
#[derive(Debug)]
pub struct BindPat {
    /// The source span of the binding.
    pub range: TextRange,
    /// The pattern behind `@`, if one is written.
    pub pat: Option<Box<Pat>>,
    /// The type of the binding, where the semantic layer has one.
    pub ty: Option<InferredType>,
}

/// A field of a record pattern that is written out as `field: pat`.
#[derive(Debug)]
pub struct RecordFieldPat {
    pub pat: Option<Pat>,
}

/// The fields between the braces of a record pattern.
#[derive(Debug)]
pub struct RecordFieldPatList {
    /// The fields written as `field: pat`.
    pub record_field_pats: Vec<RecordFieldPat>,
    /// The fields written in shorthand, as a bare binding.
    pub bind_pats: Vec<BindPat>,
}

/// A pattern. `Other` stands for every pattern that the engine does not
/// take apart.
#[derive(Debug)]
pub enum Pat {
    BindPat(BindPat),
    OrPat(Vec<Pat>),
    TuplePat(Vec<Pat>),
    RecordPat(Option<RecordFieldPatList>),
    TupleStructPat(Vec<Pat>),
    ParenPat(Option<Box<Pat>>),
    RefPat(Option<Box<Pat>>),
    Other,
}

impl BindPat {
    /// A binding is a leaf when no pattern is nested in it.
    pub open spec fn is_leaf(self) -> bool {
        self.pat is None
    }

    /// What stands for a shorthand field in the expansion of its record
    /// pattern: the nested pattern if there is one, else the binding itself.
    pub open spec fn shorthand_target(self) -> Pat {
        match self.pat {
            Some(inner) => *inner,
            None => Pat::BindPat(self),
        }
    }

    /// The number of pattern nodes in the binding, itself included.
    pub open spec fn size(self) -> nat
        decreases self,
    {
        match self.pat {
            Some(inner) => 1 + inner.size(),
            None => 1,
        }
    }
}

impl Pat {
    /// The binding that the pattern is, if it is a leaf.
    pub open spec fn as_leaf(self) -> Option<BindPat> {
        match self {
            Pat::BindPat(b) => if b.is_leaf() {
                Some(b)
            } else {
                None
            },
            _ => None,
        }
    }

    /// The patterns one step below this one, in the order in which they are
    /// taken up.
    pub open spec fn expansion(self) -> Seq<Pat> {
        match self {
            Pat::BindPat(b) => match b.pat {
                Some(inner) => seq![*inner],
                None => Seq::empty(),
            },
            Pat::OrPat(pats) => pats@,
            Pat::TuplePat(args) => args@,
            Pat::RecordPat(Some(list)) => explicit_field_pats(list.record_field_pats@)
                + shorthand_targets(list.bind_pats@),
            Pat::RecordPat(None) => Seq::empty(),
            Pat::TupleStructPat(args) => args@,
            Pat::ParenPat(Some(inner)) => seq![*inner],
            Pat::ParenPat(None) => Seq::empty(),
            Pat::RefPat(Some(inner)) => seq![*inner],
            Pat::RefPat(None) => Seq::empty(),
            Pat::Other => Seq::empty(),
        }
    }

    /// The number of pattern nodes in the tree.
    pub open spec fn size(self) -> nat
        decreases self,
    {
        match self {
            Pat::BindPat(b) => b.size(),
            Pat::OrPat(pats) => 1 + pats_size(pats@),
            Pat::TuplePat(args) => 1 + pats_size(args@),
            Pat::RecordPat(Some(list)) => 1 + fields_size(list.record_field_pats@) + binds_size(
                list.bind_pats@,
            ),
            Pat::RecordPat(None) => 1,
            Pat::TupleStructPat(args) => 1 + pats_size(args@),
            Pat::ParenPat(Some(inner)) => 1 + inner.size(),
            Pat::ParenPat(None) => 1,
            Pat::RefPat(Some(inner)) => 1 + inner.size(),
            Pat::RefPat(None) => 1,
            Pat::Other => 1,
        }
    }
}

/// The written-out fields that are enqueued: those that hold a pattern which
/// is not itself a name binding.
pub open spec fn explicit_field_pats(fields: Seq<RecordFieldPat>) -> Seq<Pat>
    decreases fields.len(),
{
    if fields.len() == 0 {
        Seq::empty()
    } else {
        let rest = explicit_field_pats(fields.drop_last());
        match fields.last().pat {
            Some(p) => if p is BindPat {
                rest
            } else {
                rest.push(p)
            },
            None => rest,
        }
    }
}

/// What the shorthand fields contribute to the expansion, one pattern each.
pub open spec fn shorthand_targets(binds: Seq<BindPat>) -> Seq<Pat> {
    Seq::new(binds.len(), |i: int| binds[i].shorthand_target())
}

/// The number of pattern nodes in `pats`, all taken together.
pub open spec fn pats_size(pats: Seq<Pat>) -> nat
    decreases pats,
{
    if pats.len() == 0 {
        0
    } else {
        pats_size(pats.drop_last()) + pats.last().size()
    }
}

/// The number of pattern nodes in the written-out fields `fields`.
pub open spec fn fields_size(fields: Seq<RecordFieldPat>) -> nat
    decreases fields,
{
    if fields.len() == 0 {
        0
    } else {
        fields_size(fields.drop_last()) + match fields.last().pat {
            Some(p) => p.size(),
            None => 0,
        }
    }
}

/// The number of pattern nodes in the shorthand fields `binds`.
pub open spec fn binds_size(binds: Seq<BindPat>) -> nat
    decreases binds,
{
    if binds.len() == 0 {
        0
    } else {
        binds_size(binds.drop_last()) + binds.last().size()
    }
}

} // verus!
