use filespider::store::{CacheEntry, RenderStore};
use filespider::types::RenderType;

#[test]
fn empty_store_finds_nothing() {
    let store = RenderStore::new();
    assert_eq!(store.lookup(1, 10), None);
    assert_eq!(store.entry(1), None);
    assert_eq!(store.len(), 0);
}

#[test]
fn lookup_needs_the_same_fingerprint() {
    let mut store = RenderStore::new();
    store.upsert(1, 10, RenderType::Html);
    assert_eq!(store.lookup(1, 10), Some(RenderType::Html));
    assert_eq!(store.lookup(1, 11), None);
    assert_eq!(store.lookup(2, 10), None);
}

#[test]
fn upsert_replaces_the_record_of_the_document() {
    let mut store = RenderStore::new();
    store.upsert(1, 10, RenderType::Html);
    store.upsert(1, 20, RenderType::Pdf);
    assert_eq!(store.len(), 1);
    assert_eq!(store.lookup(1, 10), None);
    assert_eq!(store.lookup(1, 20), Some(RenderType::Pdf));
    assert_eq!(
        store.entry(1),
        Some(CacheEntry { document: 1, hash: 20, render_type: RenderType::Pdf })
    );
}

#[test]
fn upsert_leaves_other_documents_alone() {
    let mut store = RenderStore::new();
    store.upsert(1, 10, RenderType::Html);
    store.upsert(2, 10, RenderType::Plain);
    assert_eq!(store.len(), 2);
    assert_eq!(store.lookup(1, 10), Some(RenderType::Html));
    assert_eq!(store.lookup(2, 10), Some(RenderType::Plain));
}

#[test]
fn delete_removes_the_record() {
    let mut store = RenderStore::new();
    store.upsert(1, 10, RenderType::Html);
    store.upsert(2, 10, RenderType::Plain);
    assert!(store.delete(1));
    assert!(!store.delete(1));
    assert_eq!(store.lookup(1, 10), None);
    assert_eq!(store.lookup(2, 10), Some(RenderType::Plain));
    assert_eq!(store.len(), 1);
}
