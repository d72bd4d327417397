//! The hints that the engine produces.

use vstd::prelude::*;

verus! {

/// A half-open interval of byte offsets into the source text.
#[derive(Debug, Clone, Copy, PartialEq, Eq, Structural)]
pub struct TextRange {
    pub start: u32,
    pub end: u32,
}

impl TextRange {
    /// The interval from `start` up to, and without, `end`.
    pub fn new(start: u32, end: u32) -> (range: TextRange)
        ensures
            range.start == start,
            range.end == end,
    {
        TextRange { start, end }
    }
}

/// What a hint tells: the type of a binding, or the name of the parameter
/// that an argument is passed for.
#[derive(Debug, Clone, Copy, PartialEq, Eq, Structural)]
pub enum InlayKind {
    TypeHint,
    ParameterHint,
}

/// An annotation anchored to a span of the source text.
#[derive(Debug)]
pub struct InlayHint {
    pub range: TextRange,
    pub kind: InlayKind,
    pub label: String,
}

/// A hint as contracts speak of it: the label is a sequence of characters.
pub struct InlayHintView {
    pub range: TextRange,
    pub kind: InlayKind,
    pub label: Seq<char>,
}

impl View for InlayHint {
    type V = InlayHintView;

    open spec fn view(&self) -> InlayHintView {
        InlayHintView { range: self.range, kind: self.kind, label: self.label@ }
    }
}

impl DeepView for InlayHint {
    type V = InlayHintView;

    open spec fn deep_view(&self) -> InlayHintView {
        self@
    }
}

impl InlayHint {
    /// A hint of kind `TypeHint` on `range`.
    pub fn type_hint(range: TextRange, label: String) -> (hint: InlayHint)
        ensures
            hint@ == (InlayHintView { range, kind: InlayKind::TypeHint, label: label@ }),
    {
        InlayHint { range, kind: InlayKind::TypeHint, label }
    }

    /// A hint of kind `ParameterHint` on `range`.
    pub fn parameter_hint(range: TextRange, label: String) -> (hint: InlayHint)
        ensures
            hint@ == (InlayHintView { range, kind: InlayKind::ParameterHint, label: label@ }),
    {
        InlayHint { range, kind: InlayKind::ParameterHint, label }
    }
}

/// Appends `hint` to `acc`.
pub(crate) fn push_hint(acc: &mut Vec<InlayHint>, hint: InlayHint)
    ensures
        final(acc).deep_view() == old(acc).deep_view().push(hint@),
{
    acc.push(hint);
}

} // verus!
