use festejar::youtube::{
    CacheEntry, SearchCache, SearchResult, SearchStep, CACHE_TTL_NANOS, MAX_CACHE_ENTRIES,
};

fn dummy_result(id: &str) -> SearchResult {
    SearchResult {
        id: id.to_string(),
        title: format!("title-{id}"),
        channel: "channel".to_string(),
        duration: "1:00".to_string(),
        thumbnail: "".to_string(),
        url: "".to_string(),
    }
}

#[test]
fn test_evict_oldest_if_at_capacity_enforces_cap() {
    let mut cache = SearchCache::new();
    for i in 0..(MAX_CACHE_ENTRIES + 10) {
        cache.evict_oldest_if_at_capacity();
        cache.insert(
            format!("key-{i}"),
            CacheEntry {
                results: Vec::new(),
                cached_at: i as u64,
            },
        );
    }
    assert_eq!(
        cache.len(),
        MAX_CACHE_ENTRIES,
        "cache should never grow past MAX_CACHE_ENTRIES"
    );
}

#[test]
fn test_store_and_get_cached_enforces_cap_and_keeps_fresh_entries() {
    let mut cache = SearchCache::new();

    assert!(cache.get_cached("does-not-exist", 0).is_none());

    cache.store_cached("fresh-key".to_string(), vec![dummy_result("fresh")], 1);
    let fetched = cache.get_cached("fresh-key", 2);
    assert!(
        fetched.is_some(),
        "a freshly stored entry must be immediately retrievable"
    );
    assert_eq!(fetched.unwrap()[0].id, "fresh");

    for i in 0..(MAX_CACHE_ENTRIES + 20) {
        cache.store_cached(format!("bulk-{i}"), Vec::new(), 3 + i as u64);
    }
    let len = cache.len();
    assert!(len <= MAX_CACHE_ENTRIES, "cache exceeded its cap: {len} entries");
}

#[test]
fn test_cache_entry_age_exceeds_threshold() {
    let entry = CacheEntry {
        results: Vec::new(),
        cached_at: 1_000,
    };
    let twenty_ms_later = 1_000 + 20_000_000;
    assert!(
        entry.age_exceeds(twenty_ms_later, 1_000_000),
        "entry should be considered aged past a 1ms threshold after 20ms"
    );
    assert!(
        !entry.age_exceeds(twenty_ms_later, 60_000_000_000),
        "entry should not be considered aged past a 60s threshold"
    );
}

#[test]
fn test_purge_older_than_removes_only_expired_entries() {
    let mut cache = SearchCache::new();
    cache.insert(
        "old".to_string(),
        CacheEntry {
            results: vec![dummy_result("old")],
            cached_at: 0,
        },
    );
    cache.insert(
        "new".to_string(),
        CacheEntry {
            results: vec![dummy_result("new")],
            cached_at: 25_000_000,
        },
    );

    cache.purge_older_than(25_000_000, 10_000_000);

    assert!(!cache.contains_key("old"), "expired entry should have been purged");
    assert!(cache.contains_key("new"), "fresh entry should survive the purge");
}

#[test]
fn expired_entries_are_not_served() {
    let mut cache = SearchCache::new();
    cache.store_cached("k".to_string(), vec![dummy_result("a")], 10);
    assert!(cache.get_cached("k", 10 + CACHE_TTL_NANOS).is_some());
    assert!(cache.get_cached("k", 11 + CACHE_TTL_NANOS).is_none());
}

#[test]
fn storing_a_key_again_replaces_its_results() {
    let mut cache = SearchCache::new();
    cache.store_cached("k".to_string(), vec![dummy_result("a")], 1);
    cache.store_cached("k".to_string(), vec![dummy_result("b")], 2);
    assert_eq!(cache.len(), 1);
    assert_eq!(cache.get_cached("k", 3).unwrap()[0].id, "b");
}

#[test]
fn a_search_is_run_once_then_served_from_the_cache_until_it_expires() {
    let mut cache = SearchCache::new();
    let (key, query, limit) = match cache.begin_search("ABBA", 2, true, 0) {
        SearchStep::Search { key, query, limit } => (key, query, limit),
        SearchStep::Cached { .. } => panic!("an empty cache has nothing"),
    };
    assert_eq!(key, "karaoke:abba karaoke:2");
    assert_eq!(query, "ABBA karaoke");
    assert_eq!(limit, 2);
    let found = vec![dummy_result("a"), dummy_result("b"), dummy_result("c")];
    let results = cache.finish_search(key, Some(limit), found, 10);
    assert_eq!(results.len(), 2);

    match cache.begin_search("abba", 2, true, 20) {
        SearchStep::Cached { key, results } => {
            assert_eq!(key, "karaoke:abba karaoke:2");
            assert_eq!(results.iter().map(|r| r.id.as_str()).collect::<Vec<_>>(), vec!["a", "b"]);
            let kept = cache.finish_search(key, None, vec![dummy_result("b")], 30);
            assert_eq!(kept.len(), 1);
        }
        SearchStep::Search { .. } => panic!("the search was cached"),
    }
    assert!(matches!(cache.begin_search("abba", 2, true, 31 + CACHE_TTL_NANOS), SearchStep::Search { .. }));
    assert!(matches!(cache.begin_search("abba", 2, false, 40), SearchStep::Search { .. }));
}
