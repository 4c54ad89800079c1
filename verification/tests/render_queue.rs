use dais::cache::{CacheKey, RenderSize};
use dais::render_queue::{prefetch_pages, PendingRenders};

const SIZE: RenderSize = RenderSize { width: 1280, height: 720 };

#[test]
fn prefetch_asks_for_the_neighborhood_current_first() {
    assert_eq!(prefetch_pages(0, 10), vec![0, 1, 2]);
    assert_eq!(prefetch_pages(5, 10), vec![5, 6, 4, 7]);
    assert_eq!(prefetch_pages(8, 10), vec![8, 9, 7]);
    assert_eq!(prefetch_pages(9, 10), vec![9, 8]);
    assert_eq!(prefetch_pages(0, 1), vec![0]);
    assert_eq!(prefetch_pages(0, 0), vec![0]);
}

#[test]
fn a_page_in_flight_is_not_requested_twice() {
    let mut pending = PendingRenders::new();
    assert!(pending.needs_request(false, 3, SIZE));
    assert!(!pending.needs_request(true, 3, SIZE));

    let key = CacheKey { page_index: 3, size: SIZE };
    pending.sent(key);
    pending.sent(key);
    assert!(pending.contains(key));
    assert!(!pending.needs_request(false, 3, SIZE));
    // The same page at another size is a different request.
    assert!(pending.needs_request(false, 3, RenderSize { width: 640, height: 360 }));

    pending.received(key);
    assert!(!pending.contains(key));
    assert!(pending.needs_request(false, 3, SIZE));
    pending.received(key);
    assert!(!pending.contains(key));
}
