use immich_describe::dispatch::BatchDispatcher;
use immich_describe::error::ImageAnalysisError;
use immich_describe::pipeline::ImageAnalysisResult;
use immich_describe::asset::AssetId;

fn names(n: usize) -> Vec<String> {
    (0..n).map(|i| format!("f{}", i)).collect()
}

#[test]
fn never_more_than_cap_active() {
    let mut d = BatchDispatcher::new(names(5), 2);
    assert_eq!(d.start_next(), Some(0));
    assert_eq!(d.start_next(), Some(1));
    assert_eq!(d.start_next(), None);
    assert_eq!(d.active(), 2);
    d.complete(1, Err(ImageAnalysisError::AllHostsUnavailable));
    assert_eq!(d.start_next(), Some(2));
    assert_eq!(d.start_next(), None);
    d.complete(0, Ok(ImageAnalysisResult { description: "x".to_string(), asset_id: AssetId(1) }));
    d.complete(2, Err(ImageAnalysisError::AllHostsUnavailable));
    assert_eq!(d.start_next(), Some(3));
    assert_eq!(d.start_next(), Some(4));
    assert_eq!(d.start_next(), None);
    assert!(!d.is_done());
    d.complete(4, Err(ImageAnalysisError::AllHostsUnavailable));
    d.complete(3, Err(ImageAnalysisError::AllHostsUnavailable));
    assert!(d.is_done());
    let results = d.into_results();
    assert_eq!(results.len(), 5);
    let mut seen: Vec<String> = results.iter().map(|(n, _)| n.clone()).collect();
    seen.sort();
    assert_eq!(seen, names(5));
    let ok = results.iter().find(|(n, _)| n == "f0").unwrap();
    assert!(ok.1.is_ok());
}

#[test]
fn empty_batch_is_done_at_once() {
    let mut d = BatchDispatcher::new(Vec::new(), 4);
    assert_eq!(d.start_next(), None);
    assert!(d.is_done());
    assert!(d.into_results().is_empty());
}

#[test]
fn zero_cap_starts_nothing() {
    let mut d = BatchDispatcher::new(names(1), 0);
    assert_eq!(d.start_next(), None);
    assert!(!d.is_done());
}
