use std::collections::BTreeMap;

use sic::cli_config::ConfigBuilder;
use sic::img_op_arg::{argument_operation_order, build_ast, tree_extend, IndexTree, IndexedOp, Op, OperationId};
use sic::operations::{FloatLit, Operation};
use sic::statement::Statement;

// The nodes the command line gives for an operation with values: one node
// per value, at consecutive positions after the operation's flag.
fn with_values(id: OperationId, first: usize, values: &[&str]) -> Option<Vec<IndexedOp>> {
    Some(
        values
            .iter()
            .enumerate()
            .map(|(k, v)| (first + k, Op::WithValues(first + k, id, vec![v.to_string()])))
            .collect(),
    )
}

// The node the command line gives for an operation without values.
fn valueless(id: OperationId, index: usize) -> Option<Vec<IndexedOp>> {
    Some(vec![(index, Op::Bare(index, id))])
}

// In `sic -i <in> -o <out> --op v1 v2 ...` the flag is at position 5 and the
// values start at position 6.
fn single_values(id: OperationId, values: &[&str]) -> (OperationId, Vec<String>) {
    let mut tree: IndexTree = BTreeMap::new();
    tree_extend(&mut tree, with_values(id, 6, values), values.len()).unwrap();
    assert_eq!(tree.len(), 1);
    match tree.iter().next().unwrap().1 {
        Op::WithValues(_, id, values) => (*id, values.clone()),
        _ => panic!("test err"),
    }
}

fn single_bare(id: OperationId) -> OperationId {
    let mut tree: IndexTree = BTreeMap::new();
    tree_extend(&mut tree, valueless(id, 5), 0).unwrap();
    match tree.iter().next().unwrap().1 {
        Op::Bare(_, id) => *id,
        _ => panic!("unexpected test error"),
    }
}

fn strings(values: &[&str]) -> Vec<String> {
    values.iter().map(ToString::to_string).collect::<Vec<_>>()
}

fn float(lit: &FloatLit) -> f32 {
    lit.as_str().parse::<f32>().unwrap()
}

#[test]
fn blur_x1_pos() {
    let (id, values) = single_values(OperationId::Blur, &["1.5"]);
    assert_eq!(id, OperationId::Blur);
    assert_eq!(values, vec!["1.5".to_string()]);
}

#[test]
fn blur_x1_neg() {
    let (id, values) = single_values(OperationId::Blur, &["-1.5"]);
    assert_eq!(id, OperationId::Blur);
    assert_eq!(values, vec!["-1.5".to_string()]);
}

#[test]
fn brighten_x1_pos() {
    let (id, values) = single_values(OperationId::Brighten, &["1"]);
    assert_eq!(id, OperationId::Brighten);
    assert_eq!(values, vec!["1".to_string()]);
}

#[test]
fn brighten_x1_neg() {
    let (id, values) = single_values(OperationId::Brighten, &["-1"]);
    assert_eq!(id, OperationId::Brighten);
    assert_eq!(values, vec!["-1".to_string()]);
}

#[test]
fn contrast_x1_pos() {
    let (id, values) = single_values(OperationId::Contrast, &["1.5"]);
    assert_eq!(id, OperationId::Contrast);
    assert_eq!(values, vec!["1.5".to_string()]);
}

#[test]
fn contrast_x1_neg() {
    let (id, values) = single_values(OperationId::Contrast, &["-1.5"]);
    assert_eq!(id, OperationId::Contrast);
    assert_eq!(values, vec!["-1.5".to_string()]);
}

#[test]
fn crop_x1_pos() {
    let (id, values) = single_values(OperationId::Crop, &["1", "2", "3", "4"]);
    assert_eq!(id, OperationId::Crop);
    assert_eq!(values, strings(&["1", "2", "3", "4"]));
}

#[test]
fn filter3x3_x1_pos() {
    let input = ["1", "2", "3", "4", "5.5", "6", "7", "8", "9"];
    let (id, values) = single_values(OperationId::Filter3x3, &input);
    assert_eq!(id, OperationId::Filter3x3);
    assert_eq!(values, strings(&input));
}

#[test]
fn filter3x3_x1_neg() {
    let input = ["1", "2", "3", "4", "-5.5", "6", "7", "8", "9"];
    let (id, values) = single_values(OperationId::Filter3x3, &input);
    assert_eq!(id, OperationId::Filter3x3);
    assert_eq!(values, strings(&input));
}

#[test]
fn flip_horizontal_x1() {
    assert_eq!(single_bare(OperationId::FlipH), OperationId::FlipH);
}

#[test]
fn flip_vertical_x1() {
    assert_eq!(single_bare(OperationId::FlipV), OperationId::FlipV);
}

#[test]
fn grayscale_x1() {
    assert_eq!(single_bare(OperationId::Grayscale), OperationId::Grayscale);
}

#[test]
fn hue_rotate_x1_pos() {
    let (id, values) = single_values(OperationId::HueRotate, &["1"]);
    assert_eq!(id, OperationId::HueRotate);
    assert_eq!(values, strings(&["1"]));
}

#[test]
fn hue_rotate_x1_neg() {
    let (id, values) = single_values(OperationId::HueRotate, &["-1"]);
    assert_eq!(id, OperationId::HueRotate);
    assert_eq!(values, strings(&["-1"]));
}

#[test]
fn invert_x1() {
    assert_eq!(single_bare(OperationId::Invert), OperationId::Invert);
}

#[test]
fn resize_x1_pos() {
    let (id, values) = single_values(OperationId::Resize, &["1", "2"]);
    assert_eq!(id, OperationId::Resize);
    assert_eq!(values, strings(&["1", "2"]));
}

#[test]
fn rotate90_x1() {
    assert_eq!(single_bare(OperationId::Rotate90), OperationId::Rotate90);
}

#[test]
fn rotate180_x1() {
    assert_eq!(single_bare(OperationId::Rotate180), OperationId::Rotate180);
}

#[test]
fn rotate270_x1() {
    assert_eq!(single_bare(OperationId::Rotate270), OperationId::Rotate270);
}

#[test]
fn unsharpen_x1_pos() {
    let (id, values) = single_values(OperationId::Unsharpen, &["1", "2"]);
    assert_eq!(id, OperationId::Unsharpen);
    assert_eq!(values, strings(&["1", "2"]));
}

#[test]
fn unsharpen_x1_neg1() {
    let (id, values) = single_values(OperationId::Unsharpen, &["-1.5", "2"]);
    assert_eq!(id, OperationId::Unsharpen);
    assert_eq!(values, strings(&["-1.5", "2"]));
}

#[test]
fn unsharpen_x1_neg2() {
    let (id, values) = single_values(OperationId::Unsharpen, &["1.5", "-2"]);
    assert_eq!(id, OperationId::Unsharpen);
    assert_eq!(values, strings(&["1.5", "-2"]));
}

#[test]
fn unsharpen_x1_neg3() {
    let (id, values) = single_values(OperationId::Unsharpen, &["-1.5", "-2"]);
    assert_eq!(id, OperationId::Unsharpen);
    assert_eq!(values, strings(&["-1.5", "-2"]));
}

#[test]
fn set_true() {
    let (id, values) = single_values(OperationId::ModResizePreserveAspectRatio, &["true"]);
    assert_eq!(id, OperationId::ModResizePreserveAspectRatio);
    assert_eq!(values, strings(&["true"]));
}

#[test]
fn set_false() {
    let (id, values) = single_values(OperationId::ModResizePreserveAspectRatio, &["false"]);
    assert_eq!(id, OperationId::ModResizePreserveAspectRatio);
    assert_eq!(values, strings(&["false"]));
}

fn sampling_filter_case(given: &str, expect: &str) {
    let (id, values) = single_values(OperationId::ModResizeSamplingFilter, &[given]);
    assert_eq!(id, OperationId::ModResizeSamplingFilter);
    assert_eq!(values, strings(&[expect]));
}

#[test]
fn set_catmullrom() {
    sampling_filter_case("catmullrom", "catmullrom");
}

#[test]
fn set_gaussian() {
    sampling_filter_case("gaussian", "gaussian");
}

// The command line supplies `gaussian` when the flag is given without a value.
#[test]
fn set_default() {
    sampling_filter_case("gaussian", "gaussian");
}

#[test]
fn set_lanczos3() {
    sampling_filter_case("lanczos3", "lanczos3");
}

#[test]
fn set_nearest() {
    sampling_filter_case("nearest", "nearest");
}

#[test]
fn set_triangle() {
    sampling_filter_case("triangle", "triangle");
}

// `sic -i in -o out --blur 1 --brighten 2 --contrast 3 --crop 0 0 2 2
//  --filter3x3 0 1 2 3 4 5 6 7 8 --flip-horizontal --flip-vertical --grayscale
//  --hue-rotate -90 --invert --resize 10 10 --rotate90 --rotate180 --rotate270
//  --unsharpen 1.5 1`, as the nodes the command line gives for it.
#[test]
fn build_from_args_all() {
    let found = |id: OperationId| -> Option<Vec<IndexedOp>> {
        match id {
            OperationId::Blur => with_values(id, 6, &["1"]),
            OperationId::Brighten => with_values(id, 8, &["2"]),
            OperationId::Contrast => with_values(id, 10, &["3"]),
            OperationId::Crop => with_values(id, 12, &["0", "0", "2", "2"]),
            OperationId::Filter3x3 => with_values(id, 17, &["0", "1", "2", "3", "4", "5", "6", "7", "8"]),
            OperationId::FlipH => valueless(id, 26),
            OperationId::FlipV => valueless(id, 27),
            OperationId::Grayscale => valueless(id, 28),
            OperationId::HueRotate => with_values(id, 30, &["-90"]),
            OperationId::Invert => valueless(id, 31),
            OperationId::Resize => with_values(id, 33, &["10", "10"]),
            OperationId::Rotate90 => valueless(id, 35),
            OperationId::Rotate180 => valueless(id, 36),
            OperationId::Rotate270 => valueless(id, 37),
            OperationId::Unsharpen => with_values(id, 39, &["1.5", "1"]),
            _ => None,
        }
    };
    let operations = argument_operation_order().into_iter().map(|id| (id, found(id))).collect();
    let mut tree: IndexTree = BTreeMap::new();
    let ast = build_ast(&mut tree, operations).unwrap();
    let mut iter = ast.iter();

    match iter.next().unwrap() {
        Statement::Operation(Operation::Blur(n)) => assert_eq!(float(n), 1f32),
        _ => panic!("blur expected"),
    }
    match iter.next().unwrap() {
        Statement::Operation(Operation::Brighten(n)) => assert_eq!(*n, 2i32),
        _ => panic!("brighten expected"),
    }
    match iter.next().unwrap() {
        Statement::Operation(Operation::Contrast(n)) => assert_eq!(float(n), 3f32),
        _ => panic!("contrast expected"),
    }
    match iter.next().unwrap() {
        Statement::Operation(Operation::Crop(a, b, c, d)) => assert_eq!((*a, *b, *c, *d), (0u32, 0u32, 2u32, 2u32)),
        _ => panic!("crop expected"),
    }
    match iter.next().unwrap() {
        Statement::Operation(Operation::Filter3x3(n)) => assert_eq!(
            n.iter().map(float).collect::<Vec<f32>>(),
            vec![0f32, 1f32, 2f32, 3f32, 4f32, 5f32, 6f32, 7f32, 8f32]
        ),
        _ => panic!("filter3x3 expected"),
    }
    assert!(matches!(iter.next().unwrap(), Statement::Operation(Operation::FlipHorizontal)));
    assert!(matches!(iter.next().unwrap(), Statement::Operation(Operation::FlipVertical)));
    assert!(matches!(iter.next().unwrap(), Statement::Operation(Operation::GrayScale)));
    match iter.next().unwrap() {
        Statement::Operation(Operation::HueRotate(n)) => assert_eq!(*n, -90i32),
        _ => panic!("hue-rotate expected"),
    }
    assert!(matches!(iter.next().unwrap(), Statement::Operation(Operation::Invert)));
    match iter.next().unwrap() {
        Statement::Operation(Operation::Resize(x, y)) => assert_eq!((*x, *y), (10u32, 10u32)),
        _ => panic!("resize expected"),
    }
    assert!(matches!(iter.next().unwrap(), Statement::Operation(Operation::Rotate90)));
    assert!(matches!(iter.next().unwrap(), Statement::Operation(Operation::Rotate180)));
    assert!(matches!(iter.next().unwrap(), Statement::Operation(Operation::Rotate270)));
    match iter.next().unwrap() {
        Statement::Operation(Operation::Unsharpen(s, t)) => assert_eq!((float(s), *t), (1.5f32, 1i32)),
        _ => panic!("unsharpen expected"),
    }
    assert!(iter.next().is_none());
}

#[test]
fn config_config_builder_override_defaults() {
    let mut builder = ConfigBuilder::new();
    builder = builder.image_operations_program(vec![Statement::Operation(Operation::Blur(FloatLit::parse("1.0").unwrap()))]);
    let config = builder.build();

    assert!(!config.image_operations_program.is_empty());
}
