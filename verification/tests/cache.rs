use dais::cache::{PageCache, RenderSize, RenderedPage};

fn dummy_page(id: u8) -> RenderedPage {
    RenderedPage { data: vec![id; 4], width: 1, height: 1 }
}

#[test]
fn cache_insert_and_get() {
    let mut cache = PageCache::new(5);
    let size = RenderSize { width: 1920, height: 1080 };
    cache.insert(0, size, dummy_page(0));
    assert!(cache.get(0, size).is_some());
    assert!(cache.get(1, size).is_none());
}

#[test]
fn cache_evicts_lru() {
    let mut cache = PageCache::new(2);
    let size = RenderSize { width: 1920, height: 1080 };
    cache.insert(0, size, dummy_page(0));
    cache.insert(1, size, dummy_page(1));
    cache.insert(2, size, dummy_page(2)); // should evict page 0
    assert!(cache.get(0, size).is_none());
    assert!(cache.get(1, size).is_some());
    assert!(cache.get(2, size).is_some());
}

#[test]
fn cache_get_refreshes_recency() {
    let mut cache = PageCache::new(2);
    let size = RenderSize { width: 800, height: 600 };
    cache.insert(0, size, dummy_page(0));
    cache.insert(1, size, dummy_page(1));
    assert!(cache.get(0, size).is_some()); // page 1 is now least recent
    cache.insert(2, size, dummy_page(2));
    assert!(cache.get(1, size).is_none());
    assert_eq!(cache.get(0, size).unwrap().data, vec![0; 4]);
    assert_eq!(cache.len(), 2);
}

#[test]
fn cache_keys_include_size_and_replace_on_reinsert() {
    let mut cache = PageCache::new(3);
    let small = RenderSize { width: 320, height: 180 };
    let large = RenderSize { width: 1920, height: 1080 };
    cache.insert(4, small, dummy_page(1));
    cache.insert(4, large, dummy_page(2));
    cache.insert(4, small, dummy_page(3));
    assert_eq!(cache.len(), 2);
    assert_eq!(cache.get(4, small).unwrap().data, vec![3; 4]);
    assert_eq!(cache.get(4, large).unwrap().data, vec![2; 4]);
    cache.clear();
    assert_eq!(cache.len(), 0);
    assert!(cache.get(4, small).is_none());
}

#[test]
fn insert_into_cache_with_room_keeps_every_page() {
    let mut cache = PageCache::new(3);
    let size = RenderSize { width: 1280, height: 720 };
    cache.insert(0, size, dummy_page(0));
    cache.insert(1, size, dummy_page(1));
    cache.insert(2, size, dummy_page(2));
    // Re-inserting a held page in a full cache removes nothing else.
    cache.insert(1, size, dummy_page(9));
    assert_eq!(cache.len(), 3);
    assert!(cache.get(0, size).is_some());
    assert!(cache.get(2, size).is_some());
    assert_eq!(cache.get(1, size).unwrap().data, vec![9; 4]);
}
