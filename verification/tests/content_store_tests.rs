use icn_core::content_store::{ContentStore, DEFAULT_TTL, MAX_CACHE_SIZE};

#[test]
fn test_content_store() {
    let mut cs = ContentStore::new();
    let content = vec![1, 2, 3, 4];
    cs.add("test".to_string(), content.clone());

    assert_eq!(cs.get_and_pop("test"), Some(content));
    assert_eq!(cs.get_and_pop("nonexistent"), None);

    cs.add("test2".to_string(), vec![5, 6, 7, 8]);
    assert!(!cs.is_empty());

    cs.remove_expired();
    assert_eq!(cs.get_and_pop("test2"), Some(vec![5, 6, 7, 8]));
}

#[test]
fn content_store_drops_expired_items() {
    let mut cs = ContentStore::new();
    cs.add_at("old".to_string(), vec![1], 0);
    cs.add_at("new".to_string(), vec![2], 10);
    cs.set_ttl("new", 100);
    cs.remove_expired_at(DEFAULT_TTL);
    assert_eq!(cs.get_and_pop("old"), None);
    assert_eq!(cs.get_and_pop("new"), None);
    assert!(cs.is_empty());
}

#[test]
fn content_store_keeps_items_within_their_lifetime() {
    let mut cs = ContentStore::new();
    cs.add_at("a".to_string(), vec![1], 100);
    cs.remove_expired_at(DEFAULT_TTL + 99);
    assert_eq!(cs.get("a"), Some(vec![1]));
    cs.remove_expired_at(DEFAULT_TTL + 100);
    assert_eq!(cs.get("a"), None);
}

#[test]
fn content_store_evicts_least_recently_used_when_full() {
    let mut cs = ContentStore::new();
    for i in 0..MAX_CACHE_SIZE {
        cs.add_at(format!("item{}", i), vec![0], 0);
    }
    // Touch the oldest item so that the second oldest goes first.
    assert_eq!(cs.get("item0"), Some(vec![0]));
    cs.add_at("extra".to_string(), vec![9], 0);
    assert_eq!(cs.get("item1"), None);
    assert_eq!(cs.get("item0"), Some(vec![0]));
    assert_eq!(cs.get("extra"), Some(vec![9]));
}

#[test]
fn content_store_replaces_content_under_same_name() {
    let mut cs = ContentStore::new();
    cs.add_at("a".to_string(), vec![1], 0);
    cs.add_at("a".to_string(), vec![2], 0);
    assert_eq!(cs.get_and_pop("a"), Some(vec![2]));
    assert_eq!(cs.get_and_pop("a"), None);
}
