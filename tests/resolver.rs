use immich_describe::asset::{extract_uuid_from_preview_filename, is_preview_filename, AssetId};
use immich_describe::error::ImageAnalysisError;

#[test]
fn preview_filename_round_trip() {
    let id = extract_uuid_from_preview_filename("a1b2c3d4-e5f6-47a8-89ab-0123456789ab-preview.jpg")
        .unwrap();
    assert_eq!(id, AssetId(0xa1b2c3d4e5f647a889ab0123456789ab));
}

#[test]
fn identifier_after_other_characters() {
    let id = extract_uuid_from_preview_filename(
        "thumb_00000000-0000-0000-0000-000000000001-preview.jpeg",
    )
    .unwrap();
    assert_eq!(id, AssetId(1));
}

#[test]
fn preview_match_wins_over_earlier_identifier() {
    let name = "11111111-1111-1111-1111-111111111111_22222222-2222-2222-2222-222222222222-preview.jpg";
    let id = extract_uuid_from_preview_filename(name).unwrap();
    assert_eq!(id, AssetId(0x22222222222222222222222222222222));
}

#[test]
fn identifier_without_marker_still_resolves() {
    let id = extract_uuid_from_preview_filename("a1b2c3d4-e5f6-47a8-89ab-0123456789ab.jpg").unwrap();
    assert_eq!(id, AssetId(0xa1b2c3d4e5f647a889ab0123456789ab));
}

#[test]
fn filename_without_identifier_is_invalid() {
    match extract_uuid_from_preview_filename("holiday-preview.jpg") {
        Err(ImageAnalysisError::InvalidUuid { filename }) => {
            assert_eq!(filename, "holiday-preview.jpg")
        }
        other => panic!("unexpected {:?}", other),
    }
}

#[test]
fn upper_case_identifier_is_invalid() {
    assert!(matches!(
        extract_uuid_from_preview_filename("A1B2C3D4-E5F6-47A8-89AB-0123456789AB-preview.jpg"),
        Err(ImageAnalysisError::InvalidUuid { .. })
    ));
}

#[test]
fn short_identifier_is_invalid() {
    assert!(matches!(
        extract_uuid_from_preview_filename("a1b2c3d4-e5f6-47a8-89ab-0123456789a-preview.jpg"),
        Err(ImageAnalysisError::InvalidUuid { .. })
    ));
}

#[test]
fn empty_filename_is_invalid() {
    assert!(matches!(
        extract_uuid_from_preview_filename(""),
        Err(ImageAnalysisError::InvalidUuid { .. })
    ));
}

#[test]
fn preview_marker_detection() {
    assert!(is_preview_filename("x-preview.jpg"));
    assert!(!is_preview_filename("x-preview"));
    assert!(!is_preview_filename("x-thumbnail.webp"));
    assert!(!is_preview_filename(""));
}
