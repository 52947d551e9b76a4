use claw::history::BlobStore;
use claw::history::ClipboardHistory;
use claw::history::MAX_ENTRY_SIZE;

fn add(h: &mut ClipboardHistory, b: &mut BlobStore, id: &str, content: &[u8]) {
    h.add_entry_with_id(
        b,
        id.to_string(),
        1000,
        content.to_vec(),
        "text".to_string(),
        None,
    );
}

#[test]
fn append_then_load_content_round_trips() {
    let mut blobs = BlobStore::new();
    let mut h = ClipboardHistory::new(10);
    add(&mut h, &mut blobs, "id-1", b"payload bytes");
    let got = h.get_entry_content(&blobs, &"id-1".to_string());
    assert_eq!(got, Some(b"payload bytes".to_vec()));
}

#[test]
fn append_at_size_limit_accepted() {
    let mut blobs = BlobStore::new();
    let mut h = ClipboardHistory::new(2);
    let big = vec![0xabu8; MAX_ENTRY_SIZE];
    add(&mut h, &mut blobs, "big", &big);
    assert_eq!(h.entries.len(), 1);
    assert_eq!(h.get_entry_content(&blobs, &"big".to_string()), Some(big));
}

#[test]
fn append_over_size_limit_rejected() {
    let mut blobs = BlobStore::new();
    let mut h = ClipboardHistory::new(2);
    let big = vec![0xabu8; MAX_ENTRY_SIZE + 1];
    add(&mut h, &mut blobs, "big", &big);
    assert_eq!(h.entries.len(), 0);
    assert_eq!(h.get_entry_content(&blobs, &"big".to_string()), None);
}

#[test]
fn head_duplicate_is_skipped() {
    let mut blobs = BlobStore::new();
    let mut h = ClipboardHistory::new(10);
    add(&mut h, &mut blobs, "one", b"same");
    add(&mut h, &mut blobs, "two", b"same");
    assert_eq!(h.entries.len(), 1);
    assert_eq!(h.entries[0].id, "one");
}

#[test]
fn non_adjacent_duplicate_is_kept() {
    let mut blobs = BlobStore::new();
    let mut h = ClipboardHistory::new(10);
    add(&mut h, &mut blobs, "one", b"same");
    add(&mut h, &mut blobs, "two", b"other");
    add(&mut h, &mut blobs, "three", b"same");
    assert_eq!(h.entries.len(), 3);
}

#[test]
fn cap_enforcement_evicts_tail_and_blob() {
    // with a cap of 3, a fourth distinct payload evicts the oldest entry
    // and deletes its backing blob
    let mut blobs = BlobStore::new();
    let mut h = ClipboardHistory::new(3);
    add(&mut h, &mut blobs, "p1", b"payload one");
    add(&mut h, &mut blobs, "p2", b"payload two");
    add(&mut h, &mut blobs, "p3", b"payload three");
    add(&mut h, &mut blobs, "p4", b"payload four");
    assert_eq!(h.entries.len(), 3);
    assert_eq!(h.entries[0].id, "p4");
    assert_eq!(h.entries[1].id, "p3");
    assert_eq!(h.entries[2].id, "p2");
    assert!(!blobs.contains(&"p1".to_string()));
    assert_eq!(h.get_entry_content(&blobs, &"p1".to_string()), None);
    assert_eq!(h.get_entry_content(&blobs, &"p2".to_string()), Some(b"payload two".to_vec()));
}

#[test]
fn append_keeps_length_under_cap_and_adjacent_distinct() {
    let mut blobs = BlobStore::new();
    let mut h = ClipboardHistory::new(3);
    let payloads: Vec<&[u8]> = vec![b"a", b"b", b"b", b"c", b"d", b"d"];
    for (i, p) in payloads.iter().enumerate() {
        h.add_entry_with_id(
            &mut blobs,
            format!("id-{}", i),
            i as i64,
            p.to_vec(),
            "text".to_string(),
            None,
        );
        assert!(h.entries.len() <= 3);
        for w in 0..h.entries.len().saturating_sub(1) {
            let x = h.get_entry_content(&blobs, &h.entries[w].id).unwrap();
            let y = h.get_entry_content(&blobs, &h.entries[w + 1].id).unwrap();
            assert_ne!(x, y);
        }
    }
}

#[test]
fn remove_entry_deletes_blob() {
    let mut blobs = BlobStore::new();
    let mut h = ClipboardHistory::new(10);
    add(&mut h, &mut blobs, "keep", b"kept");
    add(&mut h, &mut blobs, "drop", b"dropped");
    assert!(h.remove_entry(&mut blobs, &"drop".to_string()));
    assert_eq!(h.entries.len(), 1);
    assert!(!blobs.contains(&"drop".to_string()));
    assert_eq!(h.get_entry_content(&blobs, &"keep".to_string()), Some(b"kept".to_vec()));
}

#[test]
fn remove_unknown_entry_reports_false() {
    let mut blobs = BlobStore::new();
    let mut h = ClipboardHistory::new(10);
    add(&mut h, &mut blobs, "only", b"data");
    assert!(!h.remove_entry(&mut blobs, &"missing".to_string()));
    assert_eq!(h.entries.len(), 1);
}

#[test]
fn clear_removes_all_entries_and_blobs() {
    let mut blobs = BlobStore::new();
    let mut h = ClipboardHistory::new(10);
    add(&mut h, &mut blobs, "e1", b"one");
    add(&mut h, &mut blobs, "e2", b"two");
    h.clear(&mut blobs);
    assert_eq!(h.entries.len(), 0);
    assert!(!blobs.contains(&"e1".to_string()));
    assert!(!blobs.contains(&"e2".to_string()));
}

#[test]
fn get_entries_respects_limit() {
    let mut blobs = BlobStore::new();
    let mut h = ClipboardHistory::new(10);
    add(&mut h, &mut blobs, "e1", b"one");
    add(&mut h, &mut blobs, "e2", b"two");
    add(&mut h, &mut blobs, "e3", b"three");
    let two = h.get_entries(Some(2));
    assert_eq!(two.len(), 2);
    assert_eq!(two[0].id, "e3");
    assert_eq!(two[1].id, "e2");
    let all = h.get_entries(None);
    assert_eq!(all.len(), 3);
    let many = h.get_entries(Some(99));
    assert_eq!(many.len(), 3);
}

#[test]
fn entry_metadata_recorded() {
    let mut blobs = BlobStore::new();
    let mut h = ClipboardHistory::new(10);
    h.add_entry_with_id(
        &mut blobs,
        "meta".to_string(),
        123456,
        b"abcde".to_vec(),
        "text".to_string(),
        Some("/tmp/source".to_string()),
    );
    let e = &h.entries[0];
    assert_eq!(e.id, "meta");
    assert_eq!(e.timestamp_ms, 123456);
    assert_eq!(e.content_type, "text");
    assert_eq!(e.source_path, Some("/tmp/source".to_string()));
    assert_eq!(e.content_size, 5);
    assert!(e.content.is_empty());
}

#[test]
fn add_entry_draws_fresh_uuid_and_timestamp() {
    let mut blobs = BlobStore::new();
    let mut h = ClipboardHistory::new(10);
    h.add_entry(&mut blobs, b"first".to_vec(), "text".to_string(), None);
    h.add_entry(&mut blobs, b"second".to_vec(), "text".to_string(), None);
    assert_eq!(h.entries.len(), 2);
    assert_eq!(h.entries[0].id.len(), 36);
    assert_eq!(h.entries[1].id.len(), 36);
    assert_ne!(h.entries[0].id, h.entries[1].id);
    assert!(h.entries[0].timestamp_ms > 0);
    let got = h.get_entry_content(&blobs, &h.entries[0].id);
    assert_eq!(got, Some(b"second".to_vec()));
}

#[test]
fn sanitize_after_load_sets_cap_and_clears_content() {
    let mut blobs = BlobStore::new();
    let mut h = ClipboardHistory::new(10);
    add(&mut h, &mut blobs, "e1", b"one");
    // simulate metadata freshly deserialized with stray in-memory content
    let mut loaded = ClipboardHistory { entries: h.entries, max_entries: 10 };
    for e in loaded.entries.iter_mut() {
        e.content = b"stray".to_vec();
    }
    loaded.sanitize_after_load(42);
    assert_eq!(loaded.max_entries, 42);
    assert_eq!(loaded.entries.len(), 1);
    assert!(loaded.entries[0].content.is_empty());
    assert_eq!(loaded.entries[0].id, "e1");
}

#[test]
fn default_history_cap_is_one_hundred() {
    let h = ClipboardHistory::default();
    assert_eq!(h.max_entries, 100);
    assert_eq!(h.entries.len(), 0);
}
