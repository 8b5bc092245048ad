use immich_describe::asset::AssetId;
use immich_describe::config::{validate_args, Args, ArgsError, Interface, MonitorConfig};
use immich_describe::error::{ImageAnalysisError, OutcomeClass};
use immich_describe::locale::{determine_locale, is_available, language_from_locale};
use immich_describe::pipeline::ImageAnalysisResult;
use immich_describe::report::{tally, Statistics};
use immich_describe::text::{contains_text, trim_trailing_slashes};

fn args(monitor: bool, combined: bool) -> Args {
    Args {
        monitor,
        combined,
        ignore_existing: false,
        immich_root: "/var/lib/immich".to_string(),
        postgres_url: "host=localhost".to_string(),
        model_name: "m".to_string(),
        interface: Interface::Ollama,
        hosts: vec!["http://localhost:11434".to_string()],
        api_key: None,
        max_concurrent: 4,
        unavailable_duration: 3600,
        timeout: 3600,
        file_write_timeout: 30,
        file_check_interval: 500,
        event_cooldown: 2,
        prompt: "p".to_string(),
        lang: String::new(),
    }
}

#[test]
fn combined_and_monitor_conflict() {
    assert_eq!(validate_args(&args(true, true)), Err(ArgsError::CombinedWithMonitor));
    assert_eq!(validate_args(&args(true, false)), Ok(()));
    assert_eq!(validate_args(&args(false, true)), Ok(()));
}

#[test]
fn monitor_config_to_file_config() {
    let m = MonitorConfig {
        file_write_timeout: 30,
        file_check_interval: 500,
        event_cooldown: 2,
        timeout: 99,
        lang: "en".to_string(),
        ignore_existing: true,
        hosts: vec!["h".to_string()],
        interface: Interface::Llamacpp,
        api_key: Some("k".to_string()),
        unavailable_duration: 7,
    };
    let f = m.file_processing();
    assert_eq!(f.request_timeout, 99);
    assert_eq!(f.hosts, vec!["h".to_string()]);
    assert_eq!(f.api_key.as_deref(), Some("k"));
    assert_eq!(f.interface, Interface::Llamacpp);
    assert!(f.ignore_existing);
}

#[test]
fn tally_counts_each_class() {
    let results = vec![
        ("a".to_string(), Ok(ImageAnalysisResult { description: "d".to_string(), asset_id: AssetId(1) })),
        ("b".to_string(), Err(ImageAnalysisError::AlreadyProcessed { filename: "b".to_string() })),
        ("c".to_string(), Err(ImageAnalysisError::InvalidUuid { filename: "c".to_string() })),
        ("d".to_string(), Err(ImageAnalysisError::EmptyFile { filename: "d".to_string() })),
        ("e".to_string(), Err(ImageAnalysisError::AllHostsUnavailable)),
    ];
    let s = tally(&results);
    assert_eq!(s, Statistics { successful: 1, failed: 2, skipped: 2 });
    assert_eq!(s.total(), 5);
    assert_eq!(tally(&Vec::new()), Statistics { successful: 0, failed: 0, skipped: 0 });
}

#[test]
fn error_classes() {
    assert_eq!(ImageAnalysisError::AlreadyProcessed { filename: String::new() }.class(), OutcomeClass::Skipped);
    assert_eq!(ImageAnalysisError::InvalidUuid { filename: String::new() }.class(), OutcomeClass::Skipped);
    assert_eq!(ImageAnalysisError::DatabaseError { error: String::new() }.class(), OutcomeClass::Failed);
    assert_eq!(ImageAnalysisError::LlamaCppRequestTimeout.class(), OutcomeClass::Failed);
}

#[test]
fn language_from_locale_variable() {
    assert_eq!(language_from_locale("ru_RU.UTF-8"), "ru");
    assert_eq!(language_from_locale("EN_us"), "en");
    assert_eq!(language_from_locale("C"), "c");
    assert_eq!(language_from_locale(""), "");
}

#[test]
fn locale_choice() {
    let available = vec!["en".to_string(), "ru".to_string()];
    assert_eq!(determine_locale("RU", "en", &available), "ru");
    assert_eq!(determine_locale("de", "ru", &available), "ru");
    assert_eq!(determine_locale("", "fr", &available), "en");
    assert_eq!(determine_locale("", "ru", &available), "ru");
    assert!(is_available(&available, "en"));
    assert!(!is_available(&available, "EN"));
}

#[test]
fn text_helpers() {
    assert!(contains_text("abc-preview.jpg", "-preview."));
    assert!(contains_text("abc", ""));
    assert!(!contains_text("ab", "abc"));
    assert_eq!(trim_trailing_slashes("http://h///"), "http://h");
    assert_eq!(trim_trailing_slashes("///"), "");
}
