use gallery_fetch::cache::{cache_key, Cache, CACHE_DB};

#[test]
fn key_of_the_table() {
    assert_eq!(cache_key("imgur", "abc"), "imgur:abc");
    assert_eq!(cache_key("", ""), ":");
    assert_eq!(CACHE_DB, ".cache.db");
}

#[test]
fn insert_then_select() {
    let mut cache = Cache::new();
    cache.insert("imgur", "abc", "done");
    assert_eq!(cache.select("imgur", "abc"), Some("done".to_string()));
}

#[test]
fn cache_idempotence() {
    let mut cache = Cache::new();
    cache.insert("imgur", "abc", "first");
    cache.insert("imgur", "abc", "first");
    assert_eq!(cache.rows().len(), 1);
    assert_eq!(cache.select("imgur", "abc"), Some("first".to_string()));
    cache.insert("imgur", "abc", "second");
    assert_eq!(cache.rows().len(), 1);
    assert_eq!(cache.select("imgur", "abc"), Some("first".to_string()));
}

#[test]
fn cache_absence() {
    let mut cache = Cache::new();
    assert_eq!(cache.select("imgur", "abc"), None);
    cache.insert("imgur", "abc", "done");
    assert_eq!(cache.select("imgur", "abd"), None);
    assert_eq!(cache.select("reddit", "abc"), None);
    assert_eq!(cache.select("imgur", ""), None);
}

#[test]
fn namespaces_are_apart() {
    let mut cache = Cache::new();
    cache.insert("imgur", "abc", "1");
    cache.insert("reddit", "abc", "2");
    assert_eq!(cache.select("imgur", "abc"), Some("1".to_string()));
    assert_eq!(cache.select("reddit", "abc"), Some("2".to_string()));
}

#[test]
fn delete_forgets_the_value() {
    let mut cache = Cache::new();
    cache.insert("imgur", "a", "1");
    cache.insert("imgur", "b", "2");
    cache.delete("imgur", "a");
    assert_eq!(cache.select("imgur", "a"), None);
    assert_eq!(cache.select("imgur", "b"), Some("2".to_string()));
    cache.delete("imgur", "a");
    cache.delete("reddit", "b");
    assert_eq!(cache.select("imgur", "b"), Some("2".to_string()));
    cache.insert("imgur", "a", "3");
    assert_eq!(cache.select("imgur", "a"), Some("3".to_string()));
}

#[test]
fn rows_in_the_order_written() {
    let mut cache = Cache::new();
    cache.insert("imgur", "b", "2");
    cache.insert("imgur", "a", "1");
    cache.insert("imgur", "b", "3");
    assert_eq!(
        cache.rows(),
        &vec![
            ("imgur:b".to_string(), "2".to_string()),
            ("imgur:a".to_string(), "1".to_string()),
        ]
    );
}

#[test]
fn from_rows_first_row_of_a_key_counts() {
    let rows = vec![
        ("imgur:a".to_string(), "1".to_string()),
        ("imgur:a".to_string(), "2".to_string()),
        ("imgur:b".to_string(), "3".to_string()),
    ];
    let mut cache = Cache::from_rows(rows);
    assert_eq!(cache.select("imgur", "a"), Some("1".to_string()));
    assert_eq!(cache.select("imgur", "b"), Some("3".to_string()));
    cache.delete("imgur", "a");
    assert_eq!(cache.select("imgur", "a"), None);
    assert_eq!(cache.rows().len(), 1);
}
