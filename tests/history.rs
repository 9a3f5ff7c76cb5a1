use wurdump::history::{ClipboardDatabase, ClipboardItem, StoreError, DEDUP_WINDOW_MS, MAX_ITEMS};

const T0: i64 = 1_700_000_000_000;

fn contents(items: &[ClipboardItem]) -> Vec<String> {
    items.iter().map(|it| it.content.clone()).collect()
}

fn item(id: &str, content: &str, timestamp: i64) -> ClipboardItem {
    ClipboardItem {
        id: id.to_string(),
        content: content.to_string(),
        content_type: "text".to_string(),
        code_language: None,
        source_app: "unknown".to_string(),
        timestamp,
        size: content.len(),
        is_favorite: false,
        tags: vec![],
        preview: content.to_string(),
    }
}

#[test]
fn new_history_is_empty() {
    let db = ClipboardDatabase::new();
    assert_eq!(db.get_item_count(), 0);
    assert!(db.get_clipboard_history(20, 0).is_empty());
}

#[test]
fn stored_item_carries_its_classification() {
    let mut db = ClipboardDatabase::new();
    let it = db.store_item_at("https://example.com", "id-1".to_string(), T0).unwrap();
    assert_eq!(it.id, "id-1");
    assert_eq!(it.content, "https://example.com");
    assert_eq!(it.content_type, "url");
    assert_eq!(it.code_language, None);
    assert_eq!(it.source_app, "unknown");
    assert_eq!(it.timestamp, T0);
    assert_eq!(it.size, 19);
    assert!(!it.is_favorite);
    assert!(it.tags.is_empty());
    assert_eq!(it.preview, "https://example.com");
    assert_eq!(db.get_item_count(), 1);
}

#[test]
fn same_content_within_the_hour_is_stored_once() {
    let mut db = ClipboardDatabase::new();
    let first = db.insert_if_new_at("C", "a".to_string(), T0).unwrap();
    assert!(first.is_some());
    let second = db.insert_if_new_at("C", "b".to_string(), T0 + 60_000).unwrap();
    assert!(second.is_none());
    assert_eq!(db.get_item_count(), 1);
    let third = db.insert_if_new_at("C", "c".to_string(), T0 + DEDUP_WINDOW_MS - 1).unwrap();
    assert!(third.is_none());
    assert_eq!(db.get_item_count(), 1);
}

#[test]
fn same_content_after_the_hour_is_stored_again() {
    let mut db = ClipboardDatabase::new();
    db.insert_if_new_at("C", "a".to_string(), T0).unwrap();
    let again = db.insert_if_new_at("C", "b".to_string(), T0 + DEDUP_WINDOW_MS).unwrap();
    assert_eq!(again.map(|it| it.id), Some("b".to_string()));
    assert_eq!(db.get_item_count(), 2);
    let all = db.get_clipboard_history(20, 0);
    assert_eq!(contents(&all), vec!["C", "C"]);
    assert_eq!(all[0].id, "b");
    assert_eq!(all[1].id, "a");
}

#[test]
fn content_exists_at_looks_at_the_window() {
    let mut db = ClipboardDatabase::new();
    db.store_item_at("hello", "a".to_string(), T0).unwrap();
    assert!(db.content_exists_at("hello", T0));
    assert!(db.content_exists_at("hello", T0 + DEDUP_WINDOW_MS - 1));
    assert!(!db.content_exists_at("hello", T0 + DEDUP_WINDOW_MS));
    assert!(!db.content_exists_at("hell", T0));
    assert!(!db.content_exists_at("hello ", T0));
}

#[test]
fn content_exists_by_the_wall_clock() {
    let mut db = ClipboardDatabase::new();
    let it = db.store_clipboard_item("fresh text").unwrap();
    assert!(db.content_exists("fresh text"));
    assert!(!db.content_exists("other text"));
    assert_eq!(it.id.len(), 36);
}

#[test]
fn twenty_five_inserts_keep_the_twenty_latest() {
    let mut db = ClipboardDatabase::new();
    for k in 0..25 {
        let r = db.insert_if_new_at(&format!("item {}", k), format!("id{}", k), T0 + k as i64 * 1000);
        assert!(r.unwrap().is_some());
        assert!(db.get_item_count() as usize <= MAX_ITEMS);
    }
    assert_eq!(db.get_item_count(), 20);
    let all = db.get_clipboard_history(100, 0);
    let expected: Vec<String> = (5..25).rev().map(|k| format!("item {}", k)).collect();
    assert_eq!(contents(&all), expected);
}

#[test]
fn eviction_keeps_the_most_recent_by_timestamp_not_by_order() {
    let mut db = ClipboardDatabase::new();
    for k in 0..20 {
        db.insert_item(item(&format!("id{}", k), &format!("c{}", k), T0 + k as i64)).unwrap();
    }
    // An old item arrives late: it is the oldest, so it is the one evicted.
    db.insert_item(item("late", "late", T0 - 5)).unwrap();
    assert_eq!(db.get_item_count(), 20);
    let all = db.get_clipboard_history(20, 0);
    assert!(all.iter().all(|it| it.id != "late"));
    // A newer one evicts the oldest of the twenty.
    db.insert_item(item("new", "new", T0 + 100)).unwrap();
    let all = db.get_clipboard_history(20, 0);
    assert_eq!(all[0].id, "new");
    assert!(all.iter().all(|it| it.id != "id0"));
    assert_eq!(all.len(), 20);
}

#[test]
fn eviction_after_deletes_counts_what_is_left() {
    let mut db = ClipboardDatabase::new();
    for k in 0..20 {
        db.insert_item(item(&format!("id{}", k), &format!("c{}", k), T0 + k as i64)).unwrap();
    }
    db.delete_clipboard_item("id19");
    db.delete_clipboard_item("id3");
    for k in 20..25 {
        db.insert_item(item(&format!("id{}", k), &format!("c{}", k), T0 + k as i64)).unwrap();
    }
    let all = db.get_clipboard_history(30, 0);
    assert_eq!(all.len(), 20);
    let ids: Vec<String> = all.iter().map(|it| it.id.clone()).collect();
    let mut expected: Vec<String> = (20..25).rev().map(|k| format!("id{}", k)).collect();
    expected.extend((4..19).rev().map(|k| format!("id{}", k)));
    assert_eq!(ids, expected);
}

#[test]
fn items_are_listed_newest_first_even_when_added_out_of_order() {
    let mut db = ClipboardDatabase::new();
    db.insert_item(item("b", "b", T0 + 2)).unwrap();
    db.insert_item(item("a", "a", T0 + 1)).unwrap();
    db.insert_item(item("c", "c", T0 + 3)).unwrap();
    db.insert_item(item("b2", "b2", T0 + 2)).unwrap();
    let ids: Vec<String> = db.get_clipboard_history(10, 0).iter().map(|it| it.id.clone()).collect();
    assert_eq!(ids, vec!["c", "b2", "b", "a"]);
}

#[test]
fn a_taken_id_is_refused() {
    let mut db = ClipboardDatabase::new();
    db.store_item_at("one", "same".to_string(), T0).unwrap();
    let r = db.store_item_at("two", "same".to_string(), T0 + 1);
    assert_eq!(r.err(), Some(StoreError::DuplicateId));
    assert_eq!(db.get_item_count(), 1);
    let r = db.insert_if_new_at("three", "same".to_string(), T0 + 2);
    assert_eq!(r.err(), Some(StoreError::DuplicateId));
    assert_eq!(db.insert_item(item("same", "x", T0)), Err(StoreError::DuplicateId));
    assert_eq!(contents(&db.get_clipboard_history(20, 0)), vec!["one"]);
}

#[test]
fn pages_skip_and_limit() {
    let mut db = ClipboardDatabase::new();
    for k in 0..5 {
        db.store_item_at(&format!("p{}", k), format!("id{}", k), T0 + k as i64).unwrap();
    }
    assert_eq!(contents(&db.get_clipboard_history(2, 0)), vec!["p4", "p3"]);
    assert_eq!(contents(&db.get_clipboard_history(2, 2)), vec!["p2", "p1"]);
    assert_eq!(contents(&db.get_clipboard_history(2, 4)), vec!["p0"]);
    assert!(db.get_clipboard_history(2, 5).is_empty());
    assert!(db.get_clipboard_history(0, 0).is_empty());
    assert_eq!(db.get_clipboard_history(u32::MAX, u32::MAX).len(), 0);
    assert_eq!(db.get_clipboard_history(u32::MAX, 1).len(), 4);
}

#[test]
fn delete_removes_only_the_item_with_that_id() {
    let mut db = ClipboardDatabase::new();
    db.store_item_at("x", "1".to_string(), T0).unwrap();
    db.store_item_at("y", "2".to_string(), T0 + 1).unwrap();
    db.delete_clipboard_item("1");
    assert_eq!(contents(&db.get_clipboard_history(20, 0)), vec!["y"]);
    db.delete_clipboard_item("missing");
    assert_eq!(db.get_item_count(), 1);
}

#[test]
fn clear_removes_everything() {
    let mut db = ClipboardDatabase::new();
    db.store_item_at("x", "1".to_string(), T0).unwrap();
    db.store_item_at("y", "2".to_string(), T0 + 1).unwrap();
    db.clear_clipboard_history();
    assert_eq!(db.get_item_count(), 0);
}

#[test]
fn insert_if_new_by_the_wall_clock_skips_a_repeat() {
    let mut db = ClipboardDatabase::new();
    let first = db.insert_if_new("repeat me").unwrap();
    assert!(first.is_some());
    let second = db.insert_if_new("repeat me").unwrap();
    assert!(second.is_none());
    assert_eq!(db.get_item_count(), 1);
}

#[test]
fn duplicate_keeps_every_field() {
    let mut it = item("d", "content", T0);
    it.tags = vec!["one".to_string(), "two".to_string()];
    it.code_language = Some("rust".to_string());
    let copy = it.duplicate();
    assert_eq!(copy.id, it.id);
    assert_eq!(copy.tags, it.tags);
    assert_eq!(copy.code_language, it.code_language);
    assert_eq!(copy.timestamp, it.timestamp);
}

#[test]
fn ids_of_deleted_or_evicted_items_are_never_reused() {
    let mut db = ClipboardDatabase::new();
    db.store_item_at("a", "gone".to_string(), T0).unwrap();
    db.delete_clipboard_item("gone");
    assert_eq!(db.store_item_at("b", "gone".to_string(), T0 + 1).err(), Some(StoreError::DuplicateId));
    for k in 0..21 {
        db.store_item_at(&format!("e{}", k), format!("e{}", k), T0 + 10 + k as i64).unwrap();
    }
    // "e0" was evicted, and stays taken.
    assert!(db.get_clipboard_history(30, 0).iter().all(|it| it.id != "e0"));
    assert_eq!(db.insert_item(item("e0", "again", T0 + 100)), Err(StoreError::DuplicateId));
    db.clear_clipboard_history();
    assert_eq!(db.store_item_at("c", "e5".to_string(), T0 + 200).err(), Some(StoreError::DuplicateId));
}

#[test]
fn wall_clock_store_succeeds_on_an_empty_history() {
    let mut db = ClipboardDatabase::new();
    assert!(db.store_clipboard_item("first").is_ok());
    let mut other = ClipboardDatabase::new();
    assert!(matches!(other.insert_if_new("first"), Ok(Some(_))));
}
