use sic::operations::{parse_image_operations, parse_script, parse_syntax, FloatLit, Operation};

fn float(f: &FloatLit) -> f32 {
    f.as_str().parse::<f32>().unwrap()
}

fn ops(script: &str) -> Vec<Operation> {
    let statements = parse_syntax(script)
        .unwrap_or_else(|e| panic!("Unable to parse sic image operations script: {:?}", e));
    parse_image_operations(&statements).unwrap()
}

fn assert_blur(op: &Operation, v: f32) {
    match op {
        Operation::Blur(f) => assert_eq!(float(f), v),
        _ => panic!("expected blur"),
    }
}

fn assert_resize(op: &Operation, x: u32, y: u32) {
    match op {
        Operation::Resize(a, b) => assert_eq!((*a, *b), (x, y)),
        _ => panic!("expected resize"),
    }
}

fn assert_filter(op: &Operation, expected: [f32; 9]) {
    match op {
        Operation::Filter3x3(fs) => {
            let got: Vec<f32> = fs.iter().map(float).collect();
            assert_eq!(got, expected.to_vec());
        }
        _ => panic!("expected filter3x3"),
    }
}

fn assert_fliph_flipv_resize_blur(result: &[Operation]) {
    assert_eq!(result.len(), 4);
    assert!(matches!(result[0], Operation::FlipHorizontal));
    assert!(matches!(result[1], Operation::FlipVertical));
    assert_resize(&result[2], 100, 200);
    assert_blur(&result[3], 10.0);
}

#[test]
fn mod_test_too_many_args() {
    assert!(parse_syntax("blur 15 28;").is_err());
}

#[test]
fn mod_test_parsed() {
    let parsed = parse_script("blur 15; flipv").unwrap();
    assert_eq!(parsed.len(), 2);
    assert_blur(&parsed[0], 15.0);
    assert!(matches!(parsed[1], Operation::FlipVertical));
}

#[test]
fn mod_test_parsed_fail() {
    assert!(parse_script("blur 15.7.; flipv").is_err());
}

#[test]
fn test_blur_single_stmt_parse_correct() {
    let result = ops("blur 15;");
    assert_eq!(result.len(), 1);
    assert_blur(&result[0], 15.0);
}

#[test]
fn test_contrast_single_stmt_int_parse_correct() {
    let result = ops("contrast 15;");
    match &result[..] {
        [Operation::Contrast(f)] => assert_eq!(float(f), 15.0),
        _ => panic!("expected contrast"),
    }
}

#[test]
fn test_contrast_single_stmt_f32_parse_correct() {
    let result = ops("contrast 15.8;");
    match &result[..] {
        [Operation::Contrast(f)] => assert_eq!(float(f), 15.8),
        _ => panic!("expected contrast"),
    }
}

#[test]
fn test_contrast_single_stmt_parse_fail_end_in_dot() {
    assert!(parse_syntax("contrast 15.;").is_err());
}

#[test]
fn test_contrast_single_stmt_parse_fail_max_f32_1() {
    assert!(parse_syntax("340282200000000000000000000000000000000.0;").is_err());
}

#[test]
fn test_brighten_pos_single_stmt_parse_correct() {
    assert!(matches!(ops("brighten 3579;")[..], [Operation::Brighten(3579)]));
}

#[test]
fn test_brighten_neg_single_stmt_parse_correct() {
    assert!(matches!(ops("brighten -3579;")[..], [Operation::Brighten(-3579)]));
}

#[test]
#[should_panic]
fn test_filter3x3_triplets_f3_with_end_triplet_sep_fail() {
    ops("filter3x3 0 0 0 | 1 1 1 | 2 2 2 |");
}

#[test]
fn test_filter3x3_triplets_f3_no_end_triplet_sep() {
    let result = ops("filter3x3 0 0.1 0.2 | 1.3 1.4 1.5 | 2.6 2.7 2.8");
    assert_eq!(result.len(), 1);
    assert_filter(&result[0], [0.0, 0.1, 0.2, 1.3, 1.4, 1.5, 2.6, 2.7, 2.8]);
}

#[test]
fn test_filter3x3_triplets_f3_ensure_f32() {
    let result = ops("filter3x3 0 0 0 | 1 1 1 | 2 2 2");
    assert_filter(&result[0], [0.0, 0.0, 0.0, 1.0, 1.0, 1.0, 2.0, 2.0, 2.0]);
}

#[test]
fn test_filter3x3_triplets_f3_no_sep() {
    let result = ops("filter3x3 0 0 0 1 1 1 2 2 3.0");
    assert_filter(&result[0], [0.0, 0.0, 0.0, 1.0, 1.0, 1.0, 2.0, 2.0, 3.0]);
}

#[test]
fn test_filter3x3_triplets_f3_end_op_sep() {
    let result = ops("filter3x3 0 0 0 1 1 1 2 2 3.0;");
    assert_filter(&result[0], [0.0, 0.0, 0.0, 1.0, 1.0, 1.0, 2.0, 2.0, 3.0]);
}

#[test]
fn test_filter3x3_triplets_f3_sep_newline() {
    let result = ops("filter3x3\n0 0 0\n1 1 1\n2 2 3.0;");
    assert_filter(&result[0], [0.0, 0.0, 0.0, 1.0, 1.0, 1.0, 2.0, 2.0, 3.0]);
}

#[test]
fn test_filter3x3_triplets_f3_weird_spacing() {
    let result = ops("filter3x3\t\t\r\n\n0\n0.0\t0\n1 1.0 1\n2.0 2 3");
    assert_filter(&result[0], [0.0, 0.0, 0.0, 1.0, 1.0, 1.0, 2.0, 2.0, 3.0]);
}

#[test]
fn test_filter3x3_triplets_f3_tabbed_spacing() {
    let result = ops("filter3x3 0 0 0\t1 1 1\t2 2 3;");
    assert_filter(&result[0], [0.0, 0.0, 0.0, 1.0, 1.0, 1.0, 2.0, 2.0, 3.0]);
}

#[test]
fn test_filter3x3_triplets_f3_indented_newlines() {
    let result = ops("filter3x3\n\t0 0 0\n\t1 1 1\n\t2 2 3");
    assert_filter(&result[0], [0.0, 0.0, 0.0, 1.0, 1.0, 1.0, 2.0, 2.0, 3.0]);
}

#[test]
fn test_filter3x3_duo_filter3x3() {
    let result = ops("filter3x3 1.9 2 3 | 4 5.9 6 | 7 8 9.9\nfilter3x3 10.9 2 3 4 11.9 6 7 8 12.9");
    assert_eq!(result.len(), 2);
    assert_filter(&result[0], [1.9, 2.0, 3.0, 4.0, 5.9, 6.0, 7.0, 8.0, 9.9]);
    assert_filter(&result[1], [10.9, 2.0, 3.0, 4.0, 11.9, 6.0, 7.0, 8.0, 12.9]);
}

#[test]
#[should_panic]
fn test_filter3x3_triplets_f3_require_spacing_on_triplet_sep_1() {
    ops("filter3x3 0 0.9 0 | 1 1.1 1|2.0 2 2");
}

#[test]
#[should_panic]
fn test_filter3x3_triplets_f3_require_spacing_on_triplet_sep_2() {
    ops("filter3x3 0 0.9 0 | 1 1.1 1 |2.0 2 2");
}

#[test]
#[should_panic]
fn test_filter3x3_triplets_f3_require_spacing_on_triplet_sep_3() {
    ops("filter3x3 0 0.9 0 | 1 1.1 1| 2.0 2 2");
}

#[test]
#[should_panic]
fn test_filter3x3_triplets_f3_require_spacing_on_triplet_sep_end_fail_1() {
    ops("filter3x3 0 0.9 0 | 1 1.1 1 | 2.0 2 2|");
}

#[test]
#[should_panic]
fn test_filter3x3_triplets_f3_require_spacing_on_triplet_sep_end_fail_2() {
    ops("filter3x3 0 0.9 0 | 1 1.1 1 | 2.0 2 2 | ");
}

#[test]
#[should_panic]
fn test_filter3x3_triplets_f3_require_all_triplet_sep_1() {
    ops("filter3x3 0 0.9 0 1 1.1 1 | 2.0 2 2 | ");
}

#[test]
#[should_panic]
fn test_filter3x3_triplets_f3_require_all_triplet_sep_2() {
    ops("filter3x3 0 0.9 0 | 1 1.1 1 2.0 2 2 | ");
}

#[test]
#[should_panic]
fn test_filter3x3_insufficient_args() {
    ops("filter3x3 0 0.9 0 | 1 1.1 1 999 | 2.0 2 2 | ");
}

#[test]
#[should_panic]
fn test_filter3x3_insufficient_triplet_count_4() {
    ops("filter3x3 0 0.9 0 | 1 2.2 3 | 2.0 2 2 | 0 1 2");
}

#[test]
#[should_panic]
fn test_filter3x3_insufficient_triplet_count_2() {
    ops("filter3x3 0 0.9 0 | 1 2.2 3");
}

#[test]
fn test_flip_horizontal_single_stmt_parse_correct() {
    assert!(matches!(ops("fliph;")[..], [Operation::FlipHorizontal]));
}

#[test]
fn test_flip_horizontal_removed() {
    assert!(parse_syntax("flip_horizontal;").is_err());
}

#[test]
fn test_flip_vertical_single_stmt_parse_correct() {
    assert!(matches!(ops("flipv;")[..], [Operation::FlipVertical]));
}

#[test]
fn test_flip_vertical_removed() {
    assert!(parse_syntax("flip_vertical;").is_err());
}

#[test]
fn test_hue_rotate_pos_single_stmt_parse_correct() {
    assert!(matches!(ops("huerotate 3579;")[..], [Operation::HueRotate(3579)]));
}

#[test]
fn test_hue_rotate_neg_single_stmt_parse_correct() {
    assert!(matches!(ops("huerotate -3579;")[..], [Operation::HueRotate(-3579)]));
}

#[test]
fn test_invert_single_stmt_parse_correct() {
    assert!(matches!(ops("invert;")[..], [Operation::Invert]));
}

#[test]
fn test_resize_single_stmt_parse_correct() {
    assert!(matches!(ops("resize 99 88;")[..], [Operation::Resize(99, 88)]));
}

#[test]
fn test_rotate90_single_stmt_parse_correct() {
    assert!(matches!(ops("rotate90;")[..], [Operation::Rotate90]));
}

#[test]
fn test_rotate180_single_stmt_parse_correct() {
    assert!(matches!(ops("rotate180;")[..], [Operation::Rotate180]));
}

#[test]
fn test_rotate270_single_stmt_parse_correct() {
    assert!(matches!(ops("rotate270;")[..], [Operation::Rotate270]));
}

fn assert_unsharpen(script: &str, f: f32, t: i32) {
    match &ops(script)[..] {
        [Operation::Unsharpen(a, b)] => {
            assert_eq!(float(a), f);
            assert_eq!(*b, t);
        }
        _ => panic!("expected unsharpen"),
    }
}

#[test]
fn test_unsharpen_single_stmt_parse_correct_ints() {
    assert_unsharpen("unsharpen 99 88;", 99.0, 88);
}

#[test]
fn test_unsharpen_single_stmt_parse_correct_fp_int() {
    assert_unsharpen("unsharpen 99.0 88;", 99.0, 88);
}

#[test]
fn test_unsharpen_single_stmt_parse_correct_fp_int_neg() {
    assert_unsharpen("unsharpen -99.0 -88;", -99.0, -88);
}

#[test]
fn test_unsharpen_single_stmt_parse_correct_fp_fp_fail() {
    assert!(parse_syntax("unsharpen -99.0 -88.0;").is_err());
}

#[test]
fn test_multi_stmt_parse_correct() {
    let result = ops("blur 10;fliph;flipv;resize 100 200;");
    assert_eq!(result.len(), 4);
    assert_blur(&result[0], 10.0);
    assert!(matches!(result[1], Operation::FlipHorizontal));
    assert!(matches!(result[2], Operation::FlipVertical));
    assert_resize(&result[3], 100, 200);
}

#[test]
fn test_multi_stmt_parse_diff_order_correct() {
    assert_fliph_flipv_resize_blur(&ops("fliph;flipv;resize 100 200;blur 10;"));
}

#[test]
fn test_multi_whitespace() {
    assert_fliph_flipv_resize_blur(&ops("fliph; flipv; resize 100 200; blur 10;"));
}

#[test]
fn test_multi_whitespace_2() {
    assert_fliph_flipv_resize_blur(&ops("fliph    ; flipv   ;   \t\t resize 100 200; blur 10;"));
}

#[test]
fn test_multi_whitespace_3() {
    assert_fliph_flipv_resize_blur(&ops("fliph;\nflipv;\nresize 100 200;\n\tblur 10;"));
}

#[test]
fn test_multi_should_no_longer_end_with_sep() {
    assert_fliph_flipv_resize_blur(&ops("fliph; flipv; resize 100 200; blur 10"));
}

#[test]
fn test_multi_sep_optional() {
    assert_fliph_flipv_resize_blur(&ops("fliph flipv; resize 100 200 blur 10"));
}

#[test]
fn script_integer_out_of_range_is_reported() {
    let err = parse_script("brighten 99999999999").err().unwrap();
    assert_eq!(err, "number too large to fit in target type");
    let err = parse_script("resize 1 -1").err();
    assert!(err.is_some());
}

#[test]
fn script_syntax_error_message() {
    assert_eq!(
        parse_script("blur").err().unwrap(),
        "Unable to parse sic image operations script: the script does not follow the grammar"
    );
}
