//! The leaves of a pattern and the type hints on them.

use inlay_hints::pat::{BindPat, InferredType, Pat, RecordFieldPat, RecordFieldPatList};
use inlay_hints::{get_leaf_pats, get_pat_type_hints, InlayHint, InlayKind, TextRange};

fn ty(label: &str) -> Option<InferredType> {
    Some(InferredType { is_unknown: false, label: label.to_string() })
}

/// A binding at offset `at`, one byte long, of type `i32`.
fn name(at: u32) -> BindPat {
    BindPat { range: TextRange::new(at, at + 1), pat: None, ty: ty("i32") }
}

fn name_pat(at: u32) -> Pat {
    Pat::BindPat(name(at))
}

fn name_at(at: u32, inner: Pat) -> Pat {
    Pat::BindPat(BindPat {
        range: TextRange::new(at, at + 1),
        pat: Some(Box::new(inner)),
        ty: ty("i32"),
    })
}

fn starts(root: &Pat) -> Vec<u32> {
    get_leaf_pats(root).iter().map(|leaf| leaf.range.start).collect()
}

fn hints_of(root: &Pat, skip_root: bool) -> Vec<(u32, u32, InlayKind, String)> {
    let mut acc: Vec<InlayHint> = Vec::new();
    get_pat_type_hints(&mut acc, root, skip_root);
    acc.into_iter().map(|hint| (hint.range.start, hint.range.end, hint.kind, hint.label)).collect()
}

#[test]
fn a_name_is_its_own_leaf() {
    assert_eq!(starts(&name_pat(7)), vec![7]);
}

#[test]
fn a_name_with_a_nested_pattern_is_no_leaf() {
    // a @ (b, c)
    let root = name_at(0, Pat::TuplePat(vec![name_pat(5), name_pat(8)]));
    assert_eq!(starts(&root), vec![5, 8]);
}

#[test]
fn patterns_without_names_have_no_leaves() {
    assert!(get_leaf_pats(&Pat::Other).is_empty());
    assert!(get_leaf_pats(&Pat::TuplePat(vec![])).is_empty());
    assert!(get_leaf_pats(&Pat::TuplePat(vec![Pat::Other, Pat::Other])).is_empty());
    assert!(get_leaf_pats(&Pat::RecordPat(None)).is_empty());
    assert!(get_leaf_pats(&Pat::ParenPat(None)).is_empty());
    assert!(get_leaf_pats(&Pat::RefPat(None)).is_empty());
    assert!(get_leaf_pats(&Pat::OrPat(vec![])).is_empty());
}

#[test]
fn leaves_come_by_depth_and_then_from_left_to_right() {
    // ((a, b), c, (d, (e, f)), g)
    let root = Pat::TuplePat(vec![
        Pat::TuplePat(vec![name_pat(2), name_pat(5)]),
        name_pat(9),
        Pat::TuplePat(vec![name_pat(13), Pat::TuplePat(vec![name_pat(17), name_pat(20)])]),
        name_pat(25),
    ]);
    assert_eq!(starts(&root), vec![9, 25, 2, 5, 13, 17, 20]);
}

#[test]
fn every_wrapper_is_looked_through() {
    // (a) | &b | S(c)
    let root = Pat::OrPat(vec![
        Pat::ParenPat(Some(Box::new(name_pat(1)))),
        Pat::RefPat(Some(Box::new(name_pat(7)))),
        Pat::TupleStructPat(vec![name_pat(13)]),
    ]);
    assert_eq!(starts(&root), vec![1, 7, 13]);
}

#[test]
fn a_record_gives_its_shorthand_fields_once_each() {
    // S { a, b }
    let root = Pat::RecordPat(Some(RecordFieldPatList {
        record_field_pats: vec![],
        bind_pats: vec![name(4), name(7)],
    }));
    assert_eq!(starts(&root), vec![4, 7]);
}

#[test]
fn a_written_out_field_with_a_name_gives_no_leaf() {
    // S { a: x, b: (y, z), c, d: _ }
    let root = Pat::RecordPat(Some(RecordFieldPatList {
        record_field_pats: vec![
            RecordFieldPat { pat: Some(name_pat(7)) },
            RecordFieldPat { pat: Some(Pat::TuplePat(vec![name_pat(14), name_pat(17)])) },
            RecordFieldPat { pat: Some(Pat::Other) },
            RecordFieldPat { pat: None },
        ],
        bind_pats: vec![name(21)],
    }));
    assert_eq!(starts(&root), vec![21, 14, 17]);
}

#[test]
fn a_shorthand_field_with_a_nested_pattern_gives_what_is_nested() {
    // S { a @ (x, y), b }
    let root = Pat::RecordPat(Some(RecordFieldPatList {
        record_field_pats: vec![],
        bind_pats: vec![
            BindPat {
                range: TextRange::new(4, 14),
                pat: Some(Box::new(Pat::TuplePat(vec![name_pat(9), name_pat(12)]))),
                ty: ty("(i32, i32)"),
            },
            name(16),
        ],
    }));
    assert_eq!(starts(&root), vec![16, 9, 12]);
}

#[test]
fn a_shorthand_field_waits_for_its_turn() {
    // (S { a }, b)
    let root = Pat::TuplePat(vec![
        Pat::RecordPat(Some(RecordFieldPatList { record_field_pats: vec![], bind_pats: vec![name(5)] })),
        name_pat(10),
    ]);
    assert_eq!(starts(&root), vec![10, 5]);
}

#[test]
fn a_hint_has_the_span_and_the_type_of_its_leaf() {
    let root = Pat::BindPat(BindPat { range: TextRange::new(4, 8), pat: None, ty: ty("Vec<u8>") });
    assert_eq!(hints_of(&root, false), vec![(4, 8, InlayKind::TypeHint, "Vec<u8>".to_string())]);
}

#[test]
fn hints_are_appended() {
    let mut acc = vec![InlayHint::parameter_hint(TextRange::new(0, 1), "first".to_string())];
    get_pat_type_hints(&mut acc, &name_pat(3), false);
    assert_eq!(acc.len(), 2);
    assert_eq!(acc[0].label, "first");
    assert_eq!(acc[0].kind, InlayKind::ParameterHint);
    assert_eq!(acc[1].range, TextRange::new(3, 4));
    assert_eq!(acc[1].kind, InlayKind::TypeHint);
}

#[test]
fn a_skipped_root_gets_no_hint() {
    assert!(hints_of(&name_pat(3), true).is_empty());
    assert_eq!(hints_of(&name_pat(3), false).len(), 1);
}

#[test]
fn below_a_skipped_root_every_leaf_is_hinted() {
    // Some((a, b))
    let root = Pat::TupleStructPat(vec![Pat::TuplePat(vec![name_pat(6), name_pat(9)])]);
    let skipped: Vec<u32> = hints_of(&root, true).iter().map(|hint| hint.0).collect();
    let kept: Vec<u32> = hints_of(&root, false).iter().map(|hint| hint.0).collect();
    assert_eq!(skipped, vec![6, 9]);
    assert_eq!(kept, vec![6, 9]);
}

#[test]
fn a_skipped_root_with_a_nested_pattern_keeps_the_leaves_below() {
    // a @ b
    let root = name_at(0, name_pat(4));
    let skipped: Vec<u32> = hints_of(&root, true).iter().map(|hint| hint.0).collect();
    assert_eq!(skipped, vec![4]);
}

#[test]
fn a_leaf_of_unknown_type_gets_no_hint() {
    let unknown = Pat::BindPat(BindPat {
        range: TextRange::new(4, 8),
        pat: None,
        ty: Some(InferredType { is_unknown: true, label: "{unknown}".to_string() }),
    });
    let untyped = Pat::BindPat(BindPat { range: TextRange::new(4, 8), pat: None, ty: None });
    assert!(hints_of(&unknown, false).is_empty());
    assert!(hints_of(&untyped, false).is_empty());
    // (a, b, c) with only b typed
    let root = Pat::TuplePat(vec![unknown, name_pat(12), untyped]);
    assert_eq!(hints_of(&root, false), vec![(12, 13, InlayKind::TypeHint, "i32".to_string())]);
}

#[test]
fn a_long_label_is_passed_on_as_it_is() {
    let label = "HashMap<String, Vec<Option<…>>>";
    let root = Pat::BindPat(BindPat { range: TextRange::new(0, 3), pat: None, ty: ty(label) });
    assert_eq!(hints_of(&root, false), vec![(0, 3, InlayKind::TypeHint, label.to_string())]);
}
