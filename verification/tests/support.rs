use sic::custom_config::{determine_export_method, manual_arg, script_arg, ConfigItem, ExportMethod};
use sic::combinators::{ConditionallyDo, FallbackIf};
use sic::conversion::{batch_jobs, preprocess_color_type, ColorTypeAdjustment};
use sic::common_dir::CommonDir;
use sic::formats::{OutputFormat, PnmSubtype, SampleEncoding};
use sic::glob::{glob_base_unrooted, glob_builder_base, GlobResolver};
use sic::license::{license_steps, request_another_copy, LicenseDisplayProcessor, LicenseStep, LicenseTexts};
use sic::cli_config::SelectedLicenses;
use sic::path::FsPath;
use sic::config::{Config, FormatEncodingSettings, JPEGEncodingSettings, PNMEncodingSettings};
use sic::pipeline::{
    flatten_stop_early_wrapper, make_stop_early_wrapper, Failure, LinearSingleImagePipeline,
    PipelineReportFailure, PipelineReportSuccess, Signal, Success,
};
use sic::publish::{
    commit_arguments, commit_message, dependency_tables, dependent_version, is_published_package,
    tag_arguments, CargoPublishWorkspace, PublishWorkspace,
};

#[test]
fn fallback_if_only_on_failure_with_predicate() {
    let ok: Result<u32, String> = Ok(1);
    assert_eq!(ok.fallback_if(true, |v: u32| Ok(v), 5), Ok(1));
    let err: Result<u32, String> = Err("e".to_string());
    assert_eq!(err.clone().fallback_if(true, |v: u32| Ok(v), 5), Ok(5));
    assert_eq!(err.fallback_if(false, |v: u32| Ok(v), 5), Err("e".to_string()));
}

#[test]
fn do_if_runs_on_success_when_condition_holds() {
    let ok: Result<u32, String> = Ok(1);
    assert_eq!(ok.clone().do_if(|| true, |v| Ok(v + 1)), Ok(2));
    assert_eq!(ok.do_if(|| false, |v| Ok(v + 1)), Ok(1));
    let err: Result<u32, String> = Err("e".to_string());
    assert_eq!(err.do_if(|| true, |v| Ok(v + 1)), Err("e".to_string()));
}

#[test]
fn stop_early_wrapping_round_trips() {
    for signal in [Ok(Success::Empty), Ok(Success::Continue), Ok(Success::Stop), Err(Failure::TodoError)] {
        assert_eq!(flatten_stop_early_wrapper(make_stop_early_wrapper(signal)), signal);
    }
    assert_eq!(make_stop_early_wrapper(Ok(Success::Stop)), Err(Ok(Success::Stop)));
}

fn success_impl() -> impl Fn(&Config) -> Signal {
    |_config: &Config| Ok(Success::Continue)
}

fn stop_impl() -> impl Fn(&Config) -> Signal {
    |_config: &Config| Ok(Success::Stop)
}

fn error_impl() -> impl Fn(&Config) -> Signal {
    |_config: &Config| Err(Failure::TodoError)
}

fn process_continue_impl() -> impl Fn(&Vec<u8>, &Config) -> Signal {
    |_buffer: &Vec<u8>, _config: &Config| Ok(Success::Continue)
}

fn make_pipeline_impl() -> LinearSingleImagePipeline<Vec<u8>> {
    LinearSingleImagePipeline {
        buffer: vec![0u8; 4],
        config: Config {
            licenses: vec![],
            user_manual: None,
            script: None,
            forced_output_format: None,
            disable_automatic_color_type_adjustment: false,
            encoding_settings: FormatEncodingSettings {
                jpeg_settings: JPEGEncodingSettings { quality: 80 },
                pnm_settings: PNMEncodingSettings { ascii: true },
            },
            output: Some("hello_world".to_string()),
        },
    }
}

#[test]
fn pre_stage_empty_impl() {
    let mut pre = Vec::new();
    pre.push(success_impl());

    let mut pipeline = make_pipeline_impl();

    let result = pipeline.run_prepare(&pre);
    assert_eq!(Ok(Success::Empty), result);
}

#[test]
fn mid_stage_proc_impl() {
    let mut mid = Vec::new();
    mid.push(process_continue_impl());
    mid.push(process_continue_impl());
    mid.push(process_continue_impl());

    let mut pipeline = make_pipeline_impl();

    let result = pipeline.run_image_processing(&mid);
    assert_eq!(Ok(Success::Continue), result);
}

#[test]
fn stage_stops_early() {
    let mut pipeline = make_pipeline_impl();
    assert_eq!(pipeline.run_prepare(&vec![stop_impl(), stop_impl()]), Ok(Success::Stop));
    assert_eq!(pipeline.run_prepare(&vec![error_impl()]), Err(Failure::TodoError));
    let empty: Vec<fn(&Config) -> Signal> = Vec::new();
    assert_eq!(pipeline.run_prepare(&empty), Ok(Success::Empty));
    let empty_mid: Vec<fn(&Vec<u8>, &Config) -> Signal> = Vec::new();
    assert_eq!(pipeline.run_image_processing(&empty_mid), Ok(Success::Empty));
    let none: Option<fn(&Vec<u8>, &Config) -> Signal> = None;
    assert_eq!(pipeline.run_convert(none), Err(Failure::TodoError));
    assert_eq!(pipeline.run_convert(Some(process_continue_impl())), Ok(Success::Continue));
}

#[test]
fn all_stages_report() {
    let mut pipeline = make_pipeline_impl();
    let none: Option<fn(&Vec<u8>, &Config) -> Signal> = None;
    let mid = vec![process_continue_impl()];
    assert_eq!(
        pipeline.run_all_stages(&vec![stop_impl()], &mid, none),
        Ok(PipelineReportSuccess::Pre(Success::Stop))
    );
    assert_eq!(
        pipeline.run_all_stages(&vec![error_impl()], &mid, none),
        Err(PipelineReportFailure::Pre(Failure::TodoError))
    );
    assert_eq!(
        pipeline.run_all_stages(&vec![success_impl()], &mid, none),
        Ok(PipelineReportSuccess::Mid(Success::Continue))
    );
    let failing_mid = vec![|_b: &Vec<u8>, _c: &Config| -> Signal { Err(Failure::TodoError) }];
    assert_eq!(
        pipeline.run_all_stages(&vec![success_impl()], &failing_mid, none),
        Err(PipelineReportFailure::Mid(Failure::TodoError))
    );
}

#[test]
fn glob_base_splits_at_first_globbing_component() {
    let (base, pattern) = glob_base_unrooted("/a/b/*.png");
    assert_eq!(base.to_path_string(), "/a/b");
    assert_eq!(pattern.to_path_string(), "*.png");
    let (base, pattern) = glob_base_unrooted("/a/{x,y}/c/*.jpg");
    assert_eq!(base.to_path_string(), "/a");
    assert_eq!(pattern.to_path_string(), "{x,y}/c/*.jpg");
    let (base, pattern) = glob_base_unrooted("imgs/*.png");
    assert_eq!(base.to_path_string(), ".");
    assert_eq!(pattern.to_path_string(), "imgs/*.png");
    let (base, patterns) = glob_builder_base("/a/*.png", &vec!["*.jpg".to_string()]);
    assert_eq!(base, "/a");
    assert_eq!(patterns, vec!["*.jpg".to_string(), "*.png".to_string()]);
}

#[test]
fn glob_resolver_skips_unknown_extensions() {
    let keep_all = GlobResolver::default();
    assert!(keep_all.keeps_path(&FsPath::new("a.docx")));
    let skipping = GlobResolver::default().with_skip_unsupported(true);
    assert!(!skipping.keeps_path(&FsPath::new("a.docx")));
    assert!(skipping.keeps_path(&FsPath::new("a.PNG")));
    assert!(skipping.keeps_path(&FsPath::new("noext")));
    assert_eq!(GlobResolver::preprocess("a/*.png"), "a/*.png");
}

#[test]
fn license_steps_and_answers() {
    let texts = LicenseTexts::new("MIT");
    let steps = license_steps(SelectedLicenses::ThisSoftwarePlusDependencies, &texts);
    assert_eq!(steps.len(), 2);
    match &steps[0] {
        LicenseStep::Print(t) => assert_eq!(t, "sic image tools license:\n\nMIT"),
        _ => panic!("expected a printed license"),
    }
    assert!(matches!(steps[1], LicenseStep::AskForCopy { .. }));
    assert!(request_another_copy(" YES\n"));
    assert!(request_another_copy("y"));
    assert!(!request_another_copy(""));
    assert!(!request_another_copy("no"));
    assert!(!request_another_copy("y es"));
    let lines = LicenseDisplayProcessor::print_licenses(
        &vec![sic::config::SelectedLicenses::ThisSoftware, sic::config::SelectedLicenses::Dependencies],
        "A",
        "B",
    );
    assert_eq!(lines, vec!["Simple Image Converter license: \n\nA\n\n".to_string(), "B".to_string()]);
}

#[test]
fn publish_commands() {
    let cmd = CargoPublishWorkspace::PublishWorkspace(PublishWorkspace {
        dry_run: true,
        manifest: "Cargo.toml".to_string(),
        new_version: "1.2.3".to_string(),
    });
    let args = cmd.get_arguments();
    assert_eq!(args.version(), "1.2.3");
    assert_eq!(commit_message("sic_io", "1.2.3"), "update sic_io@1.2.3");
    assert_eq!(
        commit_arguments("sic_io", "1.2.3", true),
        vec!["commit", "--dry-run", "-m", "update sic_io@1.2.3", "--only", "--", "Cargo.*"]
    );
    assert_eq!(tag_arguments("1.2.3"), vec!["tag", "v1.2.3"]);
}

#[test]
fn color_type_adjustments() {
    assert_eq!(
        preprocess_color_type(false, OutputFormat::Pnm(PnmSubtype::Bitmap(SampleEncoding::Ascii))),
        ColorTypeAdjustment::Grayscale
    );
    assert_eq!(
        preprocess_color_type(false, OutputFormat::Pnm(PnmSubtype::Pixmap(SampleEncoding::Binary))),
        ColorTypeAdjustment::Rgb8
    );
    assert_eq!(preprocess_color_type(true, OutputFormat::Pnm(PnmSubtype::ArbitraryMap)), ColorTypeAdjustment::Keep);
    assert_eq!(preprocess_color_type(false, OutputFormat::Png), ColorTypeAdjustment::Keep);
}

#[test]
fn batch_outputs_mirror_inputs() {
    let inputs: Vec<FsPath> = ["/in/a/x.png", "/in/b/y.png"].iter().map(|s| FsPath::new(s)).collect();
    let common = CommonDir::try_new(&inputs).unwrap();
    let jobs = batch_jobs(&common, &FsPath::new("out"));
    assert_eq!(jobs.len(), 2);
    assert_eq!(jobs[0].1.to_path_string(), "out/a/x.png");
    assert_eq!(jobs[1].1.to_path_string(), "out/b/y.png");
}

#[test]
fn publish_dependent_updates() {
    let args = PublishWorkspace {
        dry_run: false,
        manifest: "Cargo.toml".to_string(),
        new_version: "0.12.0".to_string(),
    };
    assert_eq!(dependent_version(None, &args), "0.12.0");
    assert_eq!(dependent_version(Some("*"), &args), "*");
    assert_eq!(dependency_tables(true, false, true), vec!["dependencies", "build-dependencies"]);
    assert_eq!(
        dependency_tables(true, true, true),
        vec!["dependencies", "dev-dependencies", "build-dependencies"]
    );
    assert!(dependency_tables(false, false, false).is_empty());
    assert!(is_published_package("sic_io"));
    assert!(is_published_package("sic"));
    assert!(!is_published_package("si"));
    assert!(!is_published_package("image"));
}

#[test]
fn custom_config_items() {
    let items = vec![
        ConfigItem::OptionStringItem(Some("blur 1".to_string())),
        ConfigItem::OptionStringItem(Some("resize".to_string())),
    ];
    assert_eq!(script_arg(&items), Some("blur 1"));
    assert_eq!(manual_arg(&items), Some("resize"));
    let only_script = vec![ConfigItem::OptionStringItem(None)];
    assert_eq!(script_arg(&only_script), None);
    assert_eq!(manual_arg(&only_script), None);
    assert_eq!(script_arg(&Vec::new()), None);
    assert!(matches!(determine_export_method(None), ExportMethod::StdoutBytes));
    match determine_export_method(Some("out.png")) {
        ExportMethod::File(f) => assert_eq!(f, "out.png"),
        ExportMethod::StdoutBytes => panic!("expected a file"),
    }
}

#[test]
fn glob_resolver_partitions_expressions() {
    let resolver = GlobResolver::new();
    let (prefix, rest) = resolver.partition("/a/b/*.png").unwrap();
    assert_eq!(prefix.to_path_string(), "/a/b");
    assert_eq!(rest, "*.png");
    let (prefix, rest) = resolver.partition("imgs/**/*.jpg").unwrap();
    assert_eq!(prefix.to_path_string(), "imgs");
    assert_eq!(rest, "**/*.jpg");
    assert!(resolver.partition("imgs/{a").is_err());
}

#[test]
fn crop_region_within_image() {
    use_crop_region();
}

fn use_crop_region() {
    assert_eq!(sic::operations::crop_region(0, 0, 2, 2, 8, 6).unwrap(), (0, 0, 2, 2));
    assert_eq!(sic::operations::crop_region(1, 2, 8, 6, 8, 6).unwrap(), (1, 2, 7, 4));
    assert_eq!(
        sic::operations::crop_region(3, 0, 2, 2, 8, 6).err().unwrap(),
        "The crop selection does not fit the image."
    );
    assert!(sic::operations::crop_region(0, 0, 9, 2, 8, 6).is_err());
    assert!(sic::operations::crop_region(0, 3, 2, 2, 8, 6).is_err());
}
