use immich_describe::error::ImageAnalysisError;
use immich_describe::hosts::HostPool;
use immich_describe::llamacpp::LlamaCppHostManager;
use immich_describe::ollama::OllamaHostManager;

fn pool(names: &[&str], duration: u64) -> HostPool {
    HostPool::new(names.iter().map(|s| s.to_string()).collect(), duration)
}

#[test]
fn selects_first_host_when_none_marked() {
    let mut p = pool(&["http://a", "http://b", "http://c"], 1000);
    assert_eq!(p.get_available_host(0).unwrap(), "http://a");
}

#[test]
fn skips_marked_hosts_in_pool_order() {
    let mut p = pool(&["http://a", "http://b", "http://c"], 1000);
    p.mark_host_unavailable("http://a", 10);
    assert_eq!(p.get_available_host(20).unwrap(), "http://b");
    p.mark_host_unavailable("http://b", 30);
    assert_eq!(p.get_available_host(40).unwrap(), "http://c");
    // The same state gives the same answer again.
    assert_eq!(p.get_available_host(40).unwrap(), "http://c");
}

#[test]
fn all_marked_returns_oldest_mark() {
    let mut p = pool(&["http://a", "http://b", "http://c"], 1000);
    p.mark_host_unavailable("http://b", 5);
    p.mark_host_unavailable("http://c", 7);
    p.mark_host_unavailable("http://a", 9);
    assert_eq!(p.get_available_host(10).unwrap(), "http://b");
}

#[test]
fn all_marked_with_equal_times_returns_first() {
    let mut p = pool(&["http://a", "http://b"], 1000);
    p.mark_host_unavailable("http://b", 5);
    p.mark_host_unavailable("http://a", 5);
    assert_eq!(p.get_available_host(6).unwrap(), "http://a");
}

#[test]
fn mark_expires_after_exactly_the_duration() {
    let mut p = pool(&["http://a", "http://b"], 1000);
    p.mark_host_unavailable("http://a", 100);
    assert_eq!(p.get_available_host(1099).unwrap(), "http://b");
    assert_eq!(p.mark(0), Some(100));
    assert_eq!(p.get_available_host(1100).unwrap(), "http://a");
    assert_eq!(p.mark(0), None);
}

#[test]
fn remarking_extends_the_exile() {
    let mut p = pool(&["http://a", "http://b"], 1000);
    p.mark_host_unavailable("http://a", 100);
    p.mark_host_unavailable("http://a", 900);
    assert_eq!(p.get_available_host(1500).unwrap(), "http://b");
    assert_eq!(p.get_available_host(1900).unwrap(), "http://a");
}

#[test]
fn empty_pool_fails() {
    let mut p = pool(&[], 1000);
    assert!(matches!(
        p.get_available_host(0),
        Err(ImageAnalysisError::AllHostsUnavailable)
    ));
}

#[test]
fn unknown_address_is_ignored() {
    let mut p = pool(&["http://a"], 1000);
    p.mark_host_unavailable("http://zzz", 1);
    assert_eq!(p.mark(0), None);
}

#[test]
fn managers_delegate_to_their_pool() {
    let mut o = OllamaHostManager::new(vec!["http://x".to_string(), "http://y".to_string()], 50);
    o.mark_host_unavailable("http://x", 0);
    assert_eq!(o.get_available_host(10).unwrap(), "http://y");
    assert_eq!(o.hosts().len(), 2);
    let mut l = LlamaCppHostManager::new(
        vec!["http://x".to_string()],
        Some("k".to_string()),
        50,
    );
    assert_eq!(l.api_key.as_deref(), Some("k"));
    l.mark_host_unavailable("http://x", 0);
    assert_eq!(l.get_available_host(10).unwrap(), "http://x");
}
