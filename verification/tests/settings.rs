use std::str::FromStr;

use sic::cli_config::{
    build_app_config, decide_mode, parse_frame_index, parse_skip_unsupported, AppArgs, Config,
    ConfigBuilder, FrameIndex, InputOutputModeType, ModeRequest, PathVariant, ProgramInput,
    SelectedLicenses,
};
use sic::config::{JPEGEncodingSettings, PNMEncodingSettings};
use sic::jpeg::validate_jpeg_quality;
use sic::operations::Operation;
use sic::statement::Statement;

#[test]
fn config_jpeg_in_quality_range_lower_bound_inside() {
    let value: &str = "1";
    assert!(validate_jpeg_quality(u8::from_str(value).unwrap()).is_ok())
}

#[test]
fn config_jpeg_in_quality_range_lower_bound_outside() {
    let value: &str = "0";
    assert!(validate_jpeg_quality(u8::from_str(value).unwrap()).is_err())
}

#[test]
fn config_jpeg_in_quality_range_upper_bound_inside() {
    let value: &str = "100";
    assert!(validate_jpeg_quality(u8::from_str(value).unwrap()).is_ok())
}

#[test]
fn config_jpeg_in_quality_range_upper_bound_outside() {
    let value: &str = "101";
    assert!(validate_jpeg_quality(u8::from_str(value).unwrap()).is_err())
}

#[test]
fn jpeg_in_quality_range_lower_bound_inside() {
    let value: &str = "1";
    assert!(sic::cli_config::validate_jpeg_quality(u8::from_str(value).unwrap()).is_ok())
}

#[test]
fn jpeg_in_quality_range_lower_bound_outside() {
    let value: &str = "0";
    assert!(sic::cli_config::validate_jpeg_quality(u8::from_str(value).unwrap()).is_err())
}

#[test]
fn jpeg_in_quality_range_upper_bound_inside() {
    let value: &str = "100";
    assert!(sic::cli_config::validate_jpeg_quality(u8::from_str(value).unwrap()).is_ok())
}

#[test]
fn jpeg_in_quality_range_upper_bound_outside() {
    let value: &str = "101";
    assert!(sic::cli_config::validate_jpeg_quality(u8::from_str(value).unwrap()).is_err())
}

#[test]
fn jpeg_settings_from_option() {
    assert_eq!(JPEGEncodingSettings::new_result((false, None)).unwrap().quality, 80);
    assert_eq!(JPEGEncodingSettings::new_result((true, Some("40"))).unwrap().quality, 40);
    assert_eq!(
        JPEGEncodingSettings::new_result((true, None)).err().unwrap(),
        "JPEG Encoding Settings error: Unreachable"
    );
    assert_eq!(
        JPEGEncodingSettings::new_result((true, Some("abc"))).err().unwrap(),
        "JPEG Encoding Settings error: QUALITY is not a valid number."
    );
    assert_eq!(
        JPEGEncodingSettings::new_result((true, Some("0"))).err().unwrap(),
        "JPEG Encoding Settings error: --jpeg-encoding-quality requires a number between 1 and 100."
    );
    assert!(PNMEncodingSettings::new(true).ascii);
}

#[test]
fn config_builder_override_defaults() {
    let mut builder = ConfigBuilder::new();
    builder = builder.image_operations_program(vec![Statement::Operation(Operation::Invert)]);
    let config = builder.build();
    assert!(!config.image_operations_program.is_empty());
}

#[test]
fn config_defaults_and_builder() {
    let config = Config::default();
    assert_eq!(config.tool_name, "sic");
    assert_eq!(config.encoding_settings.jpeg_quality, 80);
    let config = ConfigBuilder::new()
        .mode(InputOutputModeType::Batch)
        .jpeg_quality(40)
        .pnm_format_type(true)
        .forced_output_format("png")
        .select_frame(FrameIndex::Last)
        .image_output_format_decider_fallback(true)
        .disable_automatic_color_type_adjustment(true)
        .show_license_text_of(SelectedLicenses::Dependencies)
        .build();
    assert_eq!(config.mode, InputOutputModeType::Batch);
    assert_eq!(config.encoding_settings.jpeg_quality, 40);
    assert!(config.encoding_settings.pnm_use_ascii_format);
    assert_eq!(config.forced_output_format.as_deref(), Some("png"));
    assert_eq!(config.selected_frame, FrameIndex::Last);
}

#[test]
fn frame_index_arguments() {
    assert_eq!(parse_frame_index("first").unwrap(), FrameIndex::First);
    assert_eq!(parse_frame_index("last").unwrap(), FrameIndex::Last);
    assert_eq!(parse_frame_index("3").unwrap(), FrameIndex::Nth(3));
    assert!(parse_frame_index("-1").is_err());
}

#[test]
fn skip_unsupported_values() {
    assert_eq!(parse_skip_unsupported("TRUE").unwrap(), true);
    assert_eq!(parse_skip_unsupported("false").unwrap(), false);
    assert_eq!(
        parse_skip_unsupported("yes").err().unwrap(),
        "error: Invalid value: The argument 'yes' isn't a valid value"
    );
}

#[test]
fn mode_arguments() {
    match decide_mode(Some("simple"), None, Some("out.png")).unwrap() {
        ModeRequest::Single { input, output } => {
            assert!(input.is_std_stream());
            assert!(!output.is_std_stream());
        }
        _ => panic!("expected single mode"),
    }
    match decide_mode(Some("glob"), Some("*.png"), Some("out")).unwrap() {
        ModeRequest::Glob { pattern, output_root_folder } => {
            assert_eq!(pattern, "*.png");
            assert_eq!(output_root_folder, "out");
        }
        _ => panic!("expected glob mode"),
    }
    assert!(decide_mode(Some("glob"), None, Some("out")).is_err());
    assert!(matches!(PathVariant::StdStream, PathVariant::StdStream));
}

fn args(program: ProgramInput) -> AppArgs {
    AppArgs {
        license: false,
        dep_licenses: false,
        mode: None,
        select_frame: Some("2".to_string()),
        disable_automatic_color_type_adjustment: false,
        output_format: Some("jpg".to_string()),
        jpeg_quality: Some("50".to_string()),
        pnm_ascii: true,
        image_crate_fallback: false,
        program,
    }
}

#[test]
fn app_config_from_arguments() {
    let config = build_app_config(args(ProgramInput::Script("blur 1; flipv".to_string()))).unwrap();
    assert_eq!(config.selected_frame, FrameIndex::Nth(2));
    assert_eq!(config.encoding_settings.jpeg_quality, 50);
    assert_eq!(config.image_operations_program.len(), 2);

    let mut bad = args(ProgramInput::Arguments(vec![]));
    bad.jpeg_quality = Some("101".to_string());
    assert!(build_app_config(bad).is_err());

    let mut license = args(ProgramInput::Arguments(vec![]));
    license.license = true;
    let config = build_app_config(license).unwrap();
    assert_eq!(config.show_license_text_of, Some(SelectedLicenses::ThisSoftware));
}
