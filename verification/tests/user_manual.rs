use sic::config::{Config, FormatEncodingSettings, JPEGEncodingSettings, PNMEncodingSettings};
use sic::help::{HelpDisplayProcessor, HelpIndex, HelpTopicKind, UserManualCompletedWith, UserManualPrinter};

const TOPICS: &str = "blur\n\t* brighten\n\t* contrast\n\t* filter3x3\n\t* fliph\n\t* flipv\n\t* grayscale\n\t* huerotate\n\t* invert\n\t* resize\n\t* rotate180\n\t* rotate270\n\t* rotate90\n\t* script\n\t* unsharpen";

#[test]
fn show_index() {
    let (done, text) = UserManualPrinter::default().show(Some("index"));
    assert_eq!(done, UserManualCompletedWith::ShowIndex);
    assert_eq!(text, format!("The following topics are available: \n\t* {}", TOPICS));
}

#[test]
fn printed_help() {
    let (done, text) = UserManualPrinter::default().show(Some("blur"));
    assert_eq!(done, UserManualCompletedWith::PrintedTopic);
    assert_eq!(text, HelpTopicKind::Blur.text());
}

#[test]
fn topic_not_found() {
    let (done, text) = UserManualPrinter::default().show(Some("blurr"));
    assert_eq!(done, UserManualCompletedWith::TopicNotFound);
    assert!(text.starts_with("This topic is unavailable in the user manual."));
}

#[test]
fn dont_print() {
    let (done, text) = UserManualPrinter::default().show(None);
    assert_eq!(done, UserManualCompletedWith::PrintingNotRequested);
    assert!(text.is_empty());
}

#[test]
fn topics_are_found_in_any_case() {
    let (done, _) = UserManualPrinter::default().show(Some("ReSiZe"));
    assert_eq!(done, UserManualCompletedWith::PrintedTopic);
}

#[test]
fn help_index_lists_sorted_topics() {
    let index = HelpIndex::new();
    assert_eq!(index.get_available_topics(), TOPICS);
    assert_eq!(index.get_topic("rotate90").unwrap().get_name(), "rotate90");
    assert!(index.get_topic("nope").is_none());
    assert!(index.get_topic("").is_none());
}

#[test]
fn topic_names_round_trip() {
    let kinds = [
        HelpTopicKind::Script,
        HelpTopicKind::Blur,
        HelpTopicKind::Brighten,
        HelpTopicKind::Contrast,
        HelpTopicKind::Filter3x3,
        HelpTopicKind::FlipH,
        HelpTopicKind::FlipV,
        HelpTopicKind::GrayScale,
        HelpTopicKind::HueRotate,
        HelpTopicKind::Invert,
        HelpTopicKind::Resize,
        HelpTopicKind::Rotate90,
        HelpTopicKind::Rotate180,
        HelpTopicKind::Rotate270,
        HelpTopicKind::Unsharpen,
        HelpTopicKind::Unavailable,
    ];
    for k in kinds.iter() {
        assert_eq!(HelpTopicKind::from_name(&k.name()), *k);
    }
    assert_eq!(HelpTopicKind::Unavailable.name(), "");
    assert_eq!(HelpTopicKind::from_name("x"), HelpTopicKind::Unavailable);
}

#[test]
fn help_display_for_config() {
    let config = Config {
        licenses: vec![],
        user_manual: Some("index".to_string()),
        script: None,
        forced_output_format: None,
        disable_automatic_color_type_adjustment: false,
        encoding_settings: FormatEncodingSettings {
            jpeg_settings: JPEGEncodingSettings::new_result((false, None)).unwrap(),
            pnm_settings: PNMEncodingSettings::new(false),
        },
        output: None,
    };
    let text = HelpDisplayProcessor::new().process(&config).unwrap();
    assert!(text.ends_with("unsharpen"));
}
