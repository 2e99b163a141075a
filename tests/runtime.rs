use webml::runtime::{bump_alloc, init, memory_used, page_alloc, page_free, page_size, Runtime};

#[test]
fn freed_page_is_reused_first() {
    let mut rt = Runtime::new(0, 8);
    let p1 = page_alloc(&mut rt).unwrap();
    let other = page_alloc(&mut rt).unwrap();
    assert_ne!(p1, other);
    page_free(&mut rt, p1);
    let p2 = page_alloc(&mut rt).unwrap();
    assert_eq!(p2, p1);
    page_free(&mut rt, other);
    page_free(&mut rt, p2);
    assert_eq!(page_alloc(&mut rt), Some(p2));
    assert_eq!(page_alloc(&mut rt), Some(other));
}

#[test]
fn memory_used_counts_pages() {
    let mut rt = Runtime::new(0, 16);
    assert_eq!(memory_used(&rt), 0);
    for n in 1..=5u64 {
        assert_eq!(page_alloc(&mut rt), Some((n - 1) * 65536));
        assert_eq!(memory_used(&rt), n * 65536);
    }
    assert_eq!(page_size(), 65536);
}

#[test]
fn exhausted_region_returns_none() {
    let mut rt = Runtime::new(0, 2);
    let a = page_alloc(&mut rt).unwrap();
    let b = page_alloc(&mut rt).unwrap();
    assert_eq!(page_alloc(&mut rt), None);
    assert_eq!(page_alloc(&mut rt), None);
    assert_eq!(memory_used(&rt), 2 * 65536);
    page_free(&mut rt, b);
    page_free(&mut rt, a);
    assert_eq!(page_alloc(&mut rt), Some(a));
    assert_eq!(page_alloc(&mut rt), Some(b));
    assert_eq!(page_alloc(&mut rt), None);
}

#[test]
fn bump_arena_hands_out_consecutive_bytes() {
    let mut rt = Runtime::new(1, 4);
    init(&mut rt);
    assert_eq!(memory_used(&rt), 2 * 65536);
    assert_eq!(bump_alloc(&mut rt, 16), 65536 + 8);
    assert_eq!(bump_alloc(&mut rt, 4), 65536 + 24);
    assert_eq!(bump_alloc(&mut rt, 0), 65536 + 28);
    assert_eq!(page_alloc(&mut rt), Some(2 * 65536));
}
