use immich_describe::asset::AssetId;
use immich_describe::error::ImageAnalysisError;
use immich_describe::pipeline::{
    after_analysis, after_existing_check, after_persist, after_read, begin, PipelineStep,
};

const NAME: &str = "a1b2c3d4-e5f6-47a8-89ab-0123456789ab-preview.jpg";
const ID: AssetId = AssetId(0xa1b2c3d4e5f647a889ab0123456789ab);

#[test]
fn begin_checks_store_first() {
    assert!(matches!(begin(NAME, false), Ok(PipelineStep::CheckExisting(id)) if id == ID));
}

#[test]
fn begin_skips_check_when_ignoring_existing() {
    assert!(matches!(begin(NAME, true), Ok(PipelineStep::ReadFile(id)) if id == ID));
}

#[test]
fn begin_rejects_unrecognised_name() {
    assert!(matches!(begin("cat.jpg", false), Err(ImageAnalysisError::InvalidUuid { .. })));
}

#[test]
fn existing_description_is_already_processed() {
    assert!(matches!(
        after_existing_check(ID, NAME, Ok(true)),
        Err(ImageAnalysisError::AlreadyProcessed { filename }) if filename == NAME
    ));
    assert!(matches!(after_existing_check(ID, NAME, Ok(false)), Ok(PipelineStep::ReadFile(id)) if id == ID));
    assert!(matches!(
        after_existing_check(ID, NAME, Err("no connection".to_string())),
        Err(ImageAnalysisError::DatabaseError { error }) if error == "no connection"
    ));
}

#[test]
fn empty_file_is_rejected() {
    assert!(matches!(after_read(ID, NAME, Ok(0)), Err(ImageAnalysisError::EmptyFile { .. })));
    assert!(matches!(after_read(ID, NAME, Ok(12)), Ok(PipelineStep::Analyze(id)) if id == ID));
    assert!(matches!(
        after_read(ID, NAME, Err("denied".to_string())),
        Err(ImageAnalysisError::ProcessingError { error, .. }) if error == "denied"
    ));
}

#[test]
fn analysis_then_persist() {
    match after_analysis(ID, Ok("a cat".to_string())) {
        Ok(PipelineStep::Persist(id, d)) => {
            assert_eq!(id, ID);
            assert_eq!(d, "a cat");
        }
        other => panic!("unexpected {:?}", other),
    }
    assert!(matches!(
        after_analysis(ID, Err(ImageAnalysisError::OllamaRequestTimeout)),
        Err(ImageAnalysisError::OllamaRequestTimeout)
    ));
    let done = after_persist(ID, "a cat".to_string(), Ok(())).unwrap();
    assert_eq!(done.asset_id, ID);
    assert_eq!(done.description, "a cat");
    assert!(matches!(
        after_persist(ID, "a cat".to_string(), Err("write failed".to_string())),
        Err(ImageAnalysisError::DatabaseError { .. })
    ));
}
