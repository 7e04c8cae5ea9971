use sic::cli_config::{create_format_decider, filter_unsupported_paths, ConfigBuilder, PathVariant};
use sic::config::{Config, FormatEncodingSettings, JPEGEncodingSettings, PNMEncodingSettings};
use sic::encoding_format::{image_format_from_str, EncodingFormatDecider};
use sic::formats::{
    guess_output_by_identifier, guess_output_by_path, DetermineEncodingFormat, OutputFormat,
    PnmSubtype, SampleEncoding,
};
use sic::path::FsPath;

fn setup_dummy_config(output: &str, ext: &str, force_format: Option<String>, pnm_ascii: bool) -> Config {
    Config {
        licenses: vec![],
        user_manual: None,
        script: None,
        forced_output_format: force_format,
        disable_automatic_color_type_adjustment: false,
        encoding_settings: FormatEncodingSettings {
            jpeg_settings: JPEGEncodingSettings::new_result((false, None)).expect("Invalid jpeg settings"),
            pnm_settings: PNMEncodingSettings::new(pnm_ascii),
        },
        output: Some(format!("{}.{}", output, ext)),
    }
}

const INPUT_FORMATS: &[&str] = &["bmp", "gif", "ico", "jpg", "jpeg", "png", "pbm", "pgm", "ppm", "pam"];
const EXPECTED_VALUES: &[OutputFormat] = &[
    OutputFormat::Bmp,
    OutputFormat::Gif,
    OutputFormat::Ico,
    OutputFormat::Jpeg(80),
    OutputFormat::Jpeg(80),
    OutputFormat::Png,
    OutputFormat::Pnm(PnmSubtype::Bitmap(SampleEncoding::Binary)),
    OutputFormat::Pnm(PnmSubtype::Graymap(SampleEncoding::Binary)),
    OutputFormat::Pnm(PnmSubtype::Pixmap(SampleEncoding::Binary)),
    OutputFormat::Pnm(PnmSubtype::ArbitraryMap),
];

#[test]
fn test_with_extensions_with_defaults() {
    for (ext, exp) in INPUT_FORMATS.iter().zip(EXPECTED_VALUES.iter()) {
        let settings = setup_dummy_config("encoding_processing_w_ext_dont_care", ext, None, false);
        let result = EncodingFormatDecider::new().process(&settings).expect("Failed to compute image format.");
        assert_eq!(*exp, result);
    }
}

#[test]
fn test_with_force_formats_with_defaults() {
    for (format, exp) in INPUT_FORMATS.iter().zip(EXPECTED_VALUES.iter()) {
        let settings = setup_dummy_config("encoding_processing_w_ff_dont_care", "", Some(String::from(*format)), false);
        let result = EncodingFormatDecider::new().process(&settings).expect("Failed to compute image format.");
        assert_eq!(*exp, result);
    }
}

#[test]
fn test_with_extension_jpg_and_force_format_png() {
    let settings = setup_dummy_config("encoding_processing_w_ext_and_ff_dont_care", "jpg", Some(String::from("png")), false);
    let result = EncodingFormatDecider::new().process(&settings).expect("Failed to compute image format.");
    assert_eq!(OutputFormat::Png, result);
}

#[test]
fn test_with_extension_and_ascii_pbm() {
    let settings = setup_dummy_config("encoding_processing_ascii_pbm_dont_care", "pbm", None, true);
    let result = EncodingFormatDecider::new().process(&settings).unwrap();
    assert_eq!(OutputFormat::Pnm(PnmSubtype::Bitmap(SampleEncoding::Ascii)), result);
}

#[test]
fn test_with_extension_and_ascii_pgm() {
    let settings = setup_dummy_config("encoding_processing_ascii_pgm_dont_care", "pgm", None, true);
    let result = EncodingFormatDecider::new().process(&settings).unwrap();
    assert_eq!(OutputFormat::Pnm(PnmSubtype::Graymap(SampleEncoding::Ascii)), result);
}

#[test]
fn test_with_extension_and_ascii_ppm() {
    let settings = setup_dummy_config("encoding_processing_ascii_ppm_dont_care", "ppm", None, true);
    let result = EncodingFormatDecider::new().process(&settings).unwrap();
    assert_eq!(OutputFormat::Pnm(PnmSubtype::Pixmap(SampleEncoding::Ascii)), result);
}

#[test]
fn test_with_extension_and_ascii_pam_doesnt_care() {
    let settings = setup_dummy_config("encoding_processing_ascii_pam_doesnt_care_dont_care", "pam", None, true);
    let result = EncodingFormatDecider::new().process(&settings).unwrap();
    assert_eq!(OutputFormat::Pnm(PnmSubtype::ArbitraryMap), result);
}

#[test]
fn test_jpeg_custom_quality() {
    let mut config = setup_dummy_config("encoding_processing_jpeg_quality_valid", "jpg", None, false);
    config.encoding_settings.jpeg_settings = JPEGEncodingSettings::new_result((true, Some("40"))).expect("Invalid jpeg settings");
    let result = EncodingFormatDecider::new().process(&config).unwrap();
    assert_eq!(OutputFormat::Jpeg(40), result);
}

#[test]
#[should_panic]
fn test_output_unsupported_extension() {
    let mut config = setup_dummy_config("encoding_processing_invalid", "😉", None, false);
    config.encoding_settings.jpeg_settings = JPEGEncodingSettings { quality: 90 };
    let _ = EncodingFormatDecider::new().process(&config).expect("Failed to compute image format.");
}

#[test]
#[should_panic]
fn test_output_no_ext_or_ff() {
    let mut config = setup_dummy_config("encoding_processing_invalid", "", None, false);
    config.encoding_settings.jpeg_settings = JPEGEncodingSettings { quality: 90 };
    let _ = EncodingFormatDecider::new().process(&config).expect("Failed to compute image format.");
}

#[test]
#[should_panic]
fn test_output_unsupported_ff_with_ext() {
    let mut config = setup_dummy_config("encoding_processing_invalid", "jpg", Some("OiOi".to_string()), false);
    config.encoding_settings.jpeg_settings = JPEGEncodingSettings { quality: 90 };
    let _ = EncodingFormatDecider::new().process(&config).expect("Unable to save file to the test computer");
}

#[test]
#[should_panic]
fn test_output_unsupported_ff_without_ext() {
    let mut config = setup_dummy_config("encoding_processing_invalid", "", Some("OiOi".to_string()), false);
    config.output = Some("encoding_processing_invalid".to_string());
    config.encoding_settings.jpeg_settings = JPEGEncodingSettings { quality: 90 };
    let _ = EncodingFormatDecider::new().process(&config).expect("Unable to save file to the test computer");
}

#[test]
fn decider_error_messages() {
    let config = setup_dummy_config("a", "😉", None, false);
    assert_eq!(
        EncodingFormatDecider::new().process(&config).err().unwrap(),
        "Unable to determine a supported image format type, input: 😉."
    );
    let mut config = setup_dummy_config("a", "png", None, false);
    config.output = None;
    assert_eq!(
        EncodingFormatDecider::new().process(&config).err().unwrap(),
        "No valid output path found (type: efd/ext)"
    );
    let mut config = setup_dummy_config("noext", "", None, false);
    config.output = Some("noext".to_string());
    assert_eq!(EncodingFormatDecider::new().process(&config).err().unwrap(), "No extension was found");
    let config = setup_dummy_config("upper", "PNG", None, false);
    assert_eq!(EncodingFormatDecider::new().process(&config).unwrap(), OutputFormat::Png);
}

#[test]
fn mod_image_format_from_str_from_upper_case() {
    assert_eq!(Ok(OutputFormat::Gif), image_format_from_str("GIF"));
}

#[test]
fn mod_image_format_from_str_from_mixed_case() {
    assert_eq!(Ok(OutputFormat::Gif), image_format_from_str("GiF"));
}

#[test]
fn mod_image_format_from_str_none() {
    assert_eq!(Err("Image format unsupported.".to_string()), image_format_from_str("boop"));
}

#[test]
fn mod_image_format_from_str_bmp() {
    assert_eq!(Ok(OutputFormat::Bmp), image_format_from_str("bmp"));
}

#[test]
fn mod_image_format_from_str_gif() {
    assert_eq!(Ok(OutputFormat::Gif), image_format_from_str("gif"));
}

#[test]
fn mod_image_format_from_str_ico() {
    assert_eq!(Ok(OutputFormat::Ico), image_format_from_str("ico"));
}

#[test]
fn mod_image_format_from_str_jpeg() {
    assert_eq!(Ok(OutputFormat::Jpeg(80)), image_format_from_str("jpeg"));
}

#[test]
fn mod_image_format_from_str_jpg() {
    assert_eq!(Ok(OutputFormat::Jpeg(80)), image_format_from_str("jpg"));
}

#[test]
fn mod_image_format_from_str_png() {
    assert_eq!(Ok(OutputFormat::Png), image_format_from_str("png"));
}

#[test]
fn mod_image_format_from_str_ppm() {
    assert_eq!(
        Ok(OutputFormat::Pnm(PnmSubtype::Pixmap(SampleEncoding::Binary))),
        image_format_from_str("ppm")
    );
}

#[test]
fn tests_image_format_from_str_from_upper_case() {
    assert_eq!(Ok(OutputFormat::Gif), image_format_from_str("GIF"));
}

#[test]
fn tests_image_format_from_str_from_mixed_case() {
    assert_eq!(Ok(OutputFormat::Gif), image_format_from_str("GiF"));
}

#[test]
fn tests_image_format_from_str_none() {
    assert_eq!(Err("Image format unsupported.".to_string()), image_format_from_str("boop"));
}

#[test]
fn tests_image_format_from_str_bmp() {
    assert_eq!(Ok(OutputFormat::Bmp), image_format_from_str("bmp"));
}

#[test]
fn tests_image_format_from_str_gif() {
    assert_eq!(Ok(OutputFormat::Gif), image_format_from_str("gif"));
}

#[test]
fn tests_image_format_from_str_ico() {
    assert_eq!(Ok(OutputFormat::Ico), image_format_from_str("ico"));
}

#[test]
fn tests_image_format_from_str_jpeg() {
    assert_eq!(Ok(OutputFormat::Jpeg(80)), image_format_from_str("jpeg"));
}

#[test]
fn tests_image_format_from_str_jpg() {
    assert_eq!(Ok(OutputFormat::Jpeg(80)), image_format_from_str("jpg"));
}

#[test]
fn tests_image_format_from_str_png() {
    assert_eq!(Ok(OutputFormat::Png), image_format_from_str("png"));
}

#[test]
fn tests_image_format_from_str_ppm() {
    assert_eq!(
        Ok(OutputFormat::Pnm(PnmSubtype::Pixmap(SampleEncoding::Binary))),
        image_format_from_str("ppm")
    );
}

#[test]
fn formats_by_image_crate_ok() {
    let inputs = ["jpg", "jpeg", "png", "gif", "bmp", "ico"];
    let expected = [
        OutputFormat::Jpeg(75),
        OutputFormat::Jpeg(75),
        OutputFormat::Png,
        OutputFormat::Gif,
        OutputFormat::Bmp,
        OutputFormat::Ico,
    ];
    for (input, exp) in inputs.iter().zip(expected.iter()) {
        let by_id = guess_output_by_identifier(input).unwrap();
        let by_path = guess_output_by_path(&FsPath::new(&format!("my_file_name.{}", input))).unwrap();
        assert_eq!(by_id, by_path);
        assert_eq!(by_id, *exp);
    }
}

#[test]
fn formats_by_image_crate_err() {
    for input in ["dds", "hdr", "docx", "", "😀"] {
        assert!(guess_output_by_identifier(input).is_err());
        assert!(guess_output_by_path(&FsPath::new(&format!("my_file_name.{}", input))).is_err());
    }
}

#[test]
fn format_by_image_crate_err_no_ext() {
    assert!(guess_output_by_path(&FsPath::new("my_file_name")).is_err());
}

fn to_paths(ps: &[&str]) -> Vec<FsPath> {
    ps.iter().map(|s| FsPath::new(s)).collect()
}

fn texts(ps: &[FsPath]) -> Vec<String> {
    ps.iter().map(|p| p.to_path_string()).collect()
}

#[test]
fn skip_unsupported_paths() {
    let paths = &["/scope/0.png", "/scope/1.jpg", "/scope/2.jpeg", "/scope/2.unsupported", "/scope/2"];
    let filtered = filter_unsupported_paths(to_paths(paths), false);
    assert_eq!(texts(&filtered), vec![paths[0], paths[1], paths[2]]);
}

#[test]
fn glob_skip_unsupported_with_fallback() {
    let cases: [(&[&str], &[&str], bool); 4] = [
        (&["/test/0.png", "/test/1.jpg", "/test/2.jpeg", "/test/2.unsupported", "/test/2"], &["/test/0.png", "/test/1.jpg", "/test/2.jpeg"], false),
        (&[], &[], false),
        (&["a.farbfeld", "a.ff"], &["a.farbfeld", "a.ff"], true),
        (&["a.farbfeld", "a.ff"], &["a.farbfeld"], false),
    ];
    for (input, expected, fallback) in cases.iter() {
        let filtered = filter_unsupported_paths(to_paths(input), *fallback);
        assert_eq!(texts(&filtered), expected.to_vec());
    }
}

#[test]
fn format_decider_for_runs() {
    let config = ConfigBuilder::new().build();
    let out = PathVariant::Path(FsPath::new("out/a.PNG"));
    assert_eq!(create_format_decider(&out, &config).unwrap(), OutputFormat::Png);
    assert_eq!(create_format_decider(&PathVariant::StdStream, &config).unwrap(), OutputFormat::Bmp);
    let ff = PathVariant::Path(FsPath::new("out/a.ff"));
    assert!(create_format_decider(&ff, &config).is_err());
    let config = ConfigBuilder::new().image_output_format_decider_fallback(true).build();
    assert_eq!(create_format_decider(&ff, &config).unwrap(), OutputFormat::Farbfeld);
    let config = ConfigBuilder::new().forced_output_format("tga").build();
    assert_eq!(create_format_decider(&out, &config).unwrap(), OutputFormat::Tga);
    let config = ConfigBuilder::new().jpeg_quality(0).build();
    assert!(create_format_decider(&out, &config).is_err());
    let resolver = DetermineEncodingFormat::default_settings();
    assert_eq!(resolver.by_identifier("JPG").unwrap(), OutputFormat::Jpeg(80));
}

#[test]
fn forced_format_ignores_output_path() {
    let config = ConfigBuilder::new().forced_output_format("pgm").build();
    let jpg = PathVariant::Path(FsPath::new("out/a.jpg"));
    let none = PathVariant::Path(FsPath::new("out/a"));
    let expected = create_format_decider(&PathVariant::StdStream, &config).unwrap();
    assert_eq!(create_format_decider(&jpg, &config).unwrap(), expected);
    assert_eq!(create_format_decider(&none, &config).unwrap(), expected);
    assert_ne!(expected, OutputFormat::Bmp);
}

#[test]
fn image_crate_error_messages() {
    assert_eq!(
        guess_output_by_path(&FsPath::new("my_file_name.docx")).err().unwrap(),
        "The file extension `.\"docx\"` was not recognized as an image format"
    );
    assert_eq!(
        guess_output_by_path(&FsPath::new("my_file_name.hdr")).err().unwrap(),
        "The image format `Hdr` is not supported"
    );
    assert_eq!(
        guess_output_by_identifier("dds").err().unwrap(),
        "The image format `Dds` is not supported"
    );
    assert_eq!(
        guess_output_by_path(&FsPath::new("my_file_name")).err().unwrap(),
        "The image format could not be determined"
    );
    assert_eq!(
        guess_output_by_identifier("😀").err().unwrap(),
        "The file extension `.\"😀\"` was not recognized as an image format"
    );
}
