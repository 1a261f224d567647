use gitnr::cache::{cache_is_invalidated, CacheEntry, RefreshTracker, TemplateCache};

#[test]
fn get_returns_fresh_entries() {
    let mut c = TemplateCache::new();
    c.set("https://example.com/a", "body a", 1000);
    assert_eq!(c.get("https://example.com/a", 1000), Some("body a".to_string()));
    assert_eq!(c.get("https://example.com/a", 1000 + 3599), Some("body a".to_string()));
}

#[test]
fn entry_at_ttl_boundary_is_still_fresh() {
    let mut c = TemplateCache::new();
    c.set("k", "v", 1000);
    assert_eq!(c.get("k", 1000 + 3600), Some("v".to_string()));
}

#[test]
fn entry_older_than_ttl_is_gone() {
    let mut c = TemplateCache::new();
    c.set("k", "v", 1000);
    assert_eq!(c.get("k", 1000 + 3601), None);
}

#[test]
fn missing_key_gives_nothing() {
    let c = TemplateCache::new();
    assert_eq!(c.get("nope", 0), None);
}

#[test]
fn set_overwrites_and_refreshes() {
    let mut c = TemplateCache::new();
    c.set("k", "old", 0);
    c.set("k", "new", 10_000);
    assert_eq!(c.get("k", 10_000 + 100), Some("new".to_string()));
    assert_eq!(c.entries.len(), 1);
}

#[test]
fn future_dated_entries_count_as_fresh() {
    let mut c = TemplateCache::new();
    c.set("k", "v", 5000);
    assert_eq!(c.get("k", 4000), Some("v".to_string()));
}

#[test]
fn from_entries_keeps_the_first_of_duplicate_keys() {
    let entries = vec![
        CacheEntry { key: "a".to_string(), updated: 1, content: "one".to_string() },
        CacheEntry { key: "a".to_string(), updated: 2, content: "two".to_string() },
        CacheEntry { key: "b".to_string(), updated: 3, content: "three".to_string() },
    ];
    let c = TemplateCache::from_entries(entries);
    assert_eq!(c.entries.len(), 2);
    assert_eq!(c.get("a", 1), Some("one".to_string()));
    assert_eq!(c.get("b", 3), Some("three".to_string()));
}

#[test]
fn refresh_invalidates_each_key_once() {
    let mut t = RefreshTracker::new(true);
    assert!(cache_is_invalidated(&mut t, "k1"));
    assert!(!cache_is_invalidated(&mut t, "k1"));
    assert!(cache_is_invalidated(&mut t, "k2"));
    assert!(!cache_is_invalidated(&mut t, "k2"));
}

#[test]
fn without_refresh_nothing_is_invalidated() {
    let mut t = RefreshTracker::new(false);
    assert!(!cache_is_invalidated(&mut t, "k1"));
    assert!(!cache_is_invalidated(&mut t, "k1"));
}
