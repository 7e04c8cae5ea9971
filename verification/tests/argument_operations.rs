use std::collections::BTreeMap;

use sic::img_op_arg::{
    ast_from_index_tree, build_ast, tree_extend, tree_extend_unifiable, unify_chunk,
    unify_multiple_values, IndexTree, IndexedOp, Op, OperationId,
};
use sic::operations::Operation;
use sic::statement::{EnvironmentItem, EnvironmentKind, FilterType, Statement};

fn blur_node(index: usize) -> IndexedOp {
    (index, Op::WithValues(0, OperationId::Blur, vec!["1".to_string()]))
}

#[test]
fn tree_extend_unifiable_n1() {
    let mut tree: IndexTree = BTreeMap::new();
    assert!(tree.is_empty());
    let blur = vec![blur_node(0)];
    let res = tree_extend_unifiable(&mut tree, blur, 1);
    assert!(res.is_ok());
    assert_eq!(tree.len(), 1);
}

#[test]
fn tree_extend_unifiable_n4() {
    let mut tree: IndexTree = BTreeMap::new();
    assert!(tree.is_empty());
    let blur = vec![blur_node(0), blur_node(1), blur_node(2), blur_node(3)];
    let res = tree_extend_unifiable(&mut tree, blur, 4);
    assert!(res.is_ok());
    assert_eq!(tree.len(), 1);
}

#[test]
fn tree_extend_unifiable_n2_multiple() {
    let mut tree: IndexTree = BTreeMap::new();
    assert!(tree.is_empty());
    let blur = vec![blur_node(0), blur_node(1), blur_node(2), blur_node(3)];
    let res = tree_extend_unifiable(&mut tree, blur, 2);
    assert!(res.is_ok());
    assert_eq!(tree.len(), 2);
}

#[test]
fn tree_extend_unifiable_n4_fail() {
    let mut tree: IndexTree = BTreeMap::new();
    let blur = vec![blur_node(0), blur_node(2), blur_node(2), blur_node(3)];
    let res = tree_extend_unifiable(&mut tree, blur, 4);
    assert!(res.is_err())
}

#[test]
fn tree_extend_unifiable_n4_too_few_provided() {
    let mut tree: IndexTree = BTreeMap::new();
    let blur = vec![blur_node(0), blur_node(1), blur_node(2)];
    let res = tree_extend_unifiable(&mut tree, blur, 4);
    assert!(res.is_err())
}

#[test]
fn tree_extend_unifiable_n4_too_many_provided() {
    let mut tree: IndexTree = BTreeMap::new();
    let blur = vec![blur_node(0), blur_node(1), blur_node(2), blur_node(3), blur_node(4)];
    let res = tree_extend_unifiable(&mut tree, blur, 4);
    assert!(res.is_err())
}

#[test]
fn unification_merges_values_at_last_position() {
    let nodes = vec![
        (5, Op::WithValues(5, OperationId::Crop, vec!["1".to_string()])),
        (6, Op::WithValues(6, OperationId::Crop, vec!["2".to_string()])),
        (7, Op::WithValues(7, OperationId::Crop, vec!["3".to_string()])),
        (8, Op::WithValues(8, OperationId::Crop, vec!["4".to_string()])),
    ];
    let unified = unify_multiple_values(nodes, 4).unwrap();
    assert_eq!(unified.len(), 1);
    match &unified[0] {
        (8, Op::WithValues(8, OperationId::Crop, vs)) => assert_eq!(vs, &vec!["1", "2", "3", "4"]),
        other => panic!("unexpected {:?}", other),
    }
}

#[test]
fn unification_error_messages() {
    let short = unify_multiple_values(vec![blur_node(0), blur_node(1), blur_node(2)], 2);
    assert_eq!(
        short.err().unwrap(),
        "Unification of multi valued argument(s) failed: arguments could't be partitioned in correct chunk sizes. Length of chunk: 1"
    );
    let gap = unify_chunk(&[blur_node(0), blur_node(2)], None, 2);
    assert!(gap.err().unwrap().starts_with("Unification of multi valued argument(s) failed: When using"));
    let bare = unify_chunk(&[(0, Op::Bare(0, OperationId::FlipH)), (1, Op::Bare(1, OperationId::FlipH))], None, 2);
    assert_eq!(bare.err().unwrap(), "Can't unify bare values");
    let empty = unify_chunk(&[], None, 1);
    assert!(empty.is_err());
}

#[test]
fn tree_extend_by_amount() {
    let mut tree: IndexTree = BTreeMap::new();
    tree_extend(&mut tree, None, 2).unwrap();
    assert!(tree.is_empty());
    tree_extend(&mut tree, Some(vec![(3, Op::Bare(3, OperationId::Invert))]), 0).unwrap();
    assert_eq!(tree.len(), 1);
    let err = tree_extend(&mut tree, Some(vec![blur_node(10)]), 2);
    assert!(err.is_err());
    assert_eq!(tree.len(), 1);
}

#[test]
fn ast_from_index_tree_empty() {
    let mut tree: IndexTree = BTreeMap::new();
    let ast = ast_from_index_tree(&mut tree);
    assert!(ast.unwrap().is_empty())
}

#[test]
fn ast_from_index_tree_with_vals() {
    let mut tree: IndexTree = BTreeMap::new();
    tree.insert(1, Op::WithValues(1, OperationId::Brighten, vec![String::from("10")]));
    tree.insert(2, Op::Bare(2, OperationId::FlipV));
    tree.insert(3, Op::WithValues(3, OperationId::HueRotate, vec![String::from("-90")]));
    let ast = ast_from_index_tree(&mut tree).unwrap();
    let mut iter = ast.iter();
    assert!(matches!(iter.next().unwrap(), Statement::Operation(Operation::Brighten(10))));
    assert!(matches!(iter.next().unwrap(), Statement::Operation(Operation::FlipVertical)));
    assert!(matches!(iter.next().unwrap(), Statement::Operation(Operation::HueRotate(-90))));
    assert!(iter.next().is_none());
}

#[test]
fn mk_statement_modifiers() {
    let t = OperationId::ModResizePreserveAspectRatio.mk_statement(&vec!["true".to_string()]).unwrap();
    assert!(matches!(t, Statement::RegisterEnvironmentItem(EnvironmentItem::PreserveAspectRatio)));
    let f = OperationId::ModResizePreserveAspectRatio.mk_statement(&vec!["false".to_string()]).unwrap();
    assert!(matches!(f, Statement::DeregisterEnvironmentItem(EnvironmentKind::OptResizePreserveAspectRatio)));
    let s = OperationId::ModResizeSamplingFilter.mk_statement(&vec!["Triangle".to_string()]).unwrap();
    assert!(matches!(
        s,
        Statement::RegisterEnvironmentItem(EnvironmentItem::OptResizeSamplingFilter(FilterType::Triangle))
    ));
    let e = OperationId::ModResizeSamplingFilter.mk_statement(&vec!["yes".to_string()]);
    assert_eq!(e.err().unwrap(), "Error: resize sampling filter not found.");
}

#[test]
fn mk_statement_values() {
    let crop = OperationId::Crop
        .mk_statement(&vec!["1".to_string(), "2".to_string(), "3".to_string(), "4".to_string()])
        .unwrap();
    assert!(matches!(crop, Statement::Operation(Operation::Crop(1, 2, 3, 4))));
    let missing = OperationId::Resize.mk_statement(&vec!["1".to_string()]);
    assert_eq!(missing.err().unwrap(), "Unable to parse image operation: too few values were provided");
    let invalid = OperationId::Brighten.mk_statement(&vec!["x".to_string()]);
    assert_eq!(invalid.err().unwrap(), "Unable to parse image operation value: x");
    assert_eq!(OperationId::Filter3x3.takes_number_of_arguments(), 9);
    assert_eq!(OperationId::FlipH.takes_number_of_arguments(), 0);
}

#[test]
fn build_ast_orders_by_position() {
    let mut tree: IndexTree = BTreeMap::new();
    let ops = vec![
        (OperationId::Blur, Some(vec![(4, Op::WithValues(4, OperationId::Blur, vec!["1.5".to_string()]))])),
        (OperationId::Resize, Some(vec![
            (1, Op::WithValues(1, OperationId::Resize, vec!["10".to_string()])),
            (2, Op::WithValues(2, OperationId::Resize, vec!["20".to_string()])),
        ])),
        (OperationId::Invert, None),
    ];
    let ast = build_ast(&mut tree, ops).unwrap();
    assert_eq!(ast.len(), 2);
    assert!(matches!(ast[0], Statement::Operation(Operation::Resize(10, 20))));
    assert!(matches!(ast[1], Statement::Operation(Operation::Blur(_))));
}
