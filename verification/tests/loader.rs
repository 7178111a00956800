use open_mpv::loader::{decoded_kind, frame_bytes, Cache, DecodeError, DecodedKind};

fn put(cache: &mut Cache<u32>, name: &str, w: i32, h: i32) {
    let bytes = frame_bytes(w, h);
    cache.put(name.as_bytes().to_vec(), 0, "image/png".into(), bytes);
}

#[test]
fn evicts_oldest_over_byte_budget() {
    // Budget fits two 100x100 RGBA frames (40 000 B each), not three.
    let mut cache = Cache::new(3, 90_000);
    put(&mut cache, "a", 100, 100);
    put(&mut cache, "b", 100, 100);
    put(&mut cache, "c", 100, 100);
    assert!(!cache.contains(b"a"), "oldest should be evicted");
    assert!(cache.contains(b"b"));
    assert!(cache.contains(b"c"));
}

#[test]
fn newest_entry_survives_even_over_budget() {
    let mut cache = Cache::new(3, 10_000);
    put(&mut cache, "big", 200, 200); // 160 000 B, alone over budget
    assert!(cache.contains(b"big"));
    put(&mut cache, "big2", 200, 200);
    assert!(cache.contains(b"big2"));
    assert!(
        !cache.contains(b"big"),
        "only the newest oversized frame is kept"
    );
}

#[test]
fn pinned_shown_image_is_never_evicted() {
    // Budget fits one 100x100 neighbor beyond the pinned image.
    let mut cache = Cache::new(3, 50_000);
    put(&mut cache, "shown", 100, 100);
    cache.pin(b"shown");
    put(&mut cache, "n1", 100, 100);
    put(&mut cache, "n2", 100, 100);
    assert!(cache.contains(b"shown"));
    assert!(cache.contains(b"n2"));
    assert!(!cache.contains(b"n1"), "older neighbor evicted");
}

#[test]
fn count_cap_still_applies_under_budget() {
    let mut cache = Cache::new(3, usize::MAX);
    for name in ["a", "b", "c", "d"] {
        put(&mut cache, name, 10, 10);
    }
    assert!(!cache.contains(b"a"));
    assert!(cache.contains(b"d"));
}

#[test]
fn the_pinned_image_outlives_the_count_cap() {
    let mut cache = Cache::new(3, usize::MAX);
    put(&mut cache, "shown", 10, 10);
    cache.pin(b"shown");
    for name in ["a", "b", "c", "d"] {
        put(&mut cache, name, 10, 10);
    }
    assert!(cache.contains(b"shown"));
    assert!(cache.contains(b"d"));
    assert!(!cache.contains(b"a"));
}

#[test]
fn what_was_put_comes_back_until_it_is_invalidated() {
    let mut cache: Cache<u32> = Cache::new(3, 1_000);
    cache.put(b"dir/a".to_vec(), 7, "image/png".into(), 10);
    assert_eq!(cache.get(b"dir//a"), Some((7, "image/png".to_string())));
    cache.put(b"dir/a".to_vec(), 8, "image/webp".into(), 10);
    assert_eq!(cache.get(b"dir/a"), Some((8, "image/webp".to_string())));
    cache.invalidate(b"dir/a");
    assert_eq!(cache.get(b"dir/a"), None);
}

#[test]
fn looking_at_an_image_keeps_it() {
    let mut cache = Cache::new(3, 90_000);
    put(&mut cache, "a", 100, 100);
    put(&mut cache, "b", 100, 100);
    assert!(cache.get(b"a").is_some());
    put(&mut cache, "c", 100, 100);
    assert!(cache.contains(b"a"));
    assert!(!cache.contains(b"b"));
}

#[test]
fn frames_cost_four_bytes_a_pixel() {
    assert_eq!(frame_bytes(100, 100), 40_000);
    assert_eq!(frame_bytes(0, 100), 0);
    assert_eq!(frame_bytes(3, 5), 60);
}

#[test]
fn images_are_told_apart_by_type_and_delay() {
    assert_eq!(decoded_kind("image/svg+xml", false), DecodedKind::Svg);
    assert_eq!(decoded_kind("image/gif", true), DecodedKind::Animated);
    assert_eq!(decoded_kind("image/png", false), DecodedKind::Static);
}

#[test]
fn decode_failures_keep_their_cause() {
    assert!(DecodeError::Load.describe("no loader").ends_with("no loader"));
    assert!(DecodeError::FirstFrame.describe("broken").ends_with("broken"));
    assert_ne!(
        DecodeError::Load.describe("x"),
        DecodeError::FirstFrame.describe("x")
    );
}

#[test]
fn a_cache_without_room_keeps_only_the_image_on_screen() {
    let mut cache = Cache::new(0, usize::MAX);
    put(&mut cache, "a", 10, 10);
    assert!(!cache.contains(b"a"));
    cache.pin(b"shown");
    put(&mut cache, "shown", 10, 10);
    put(&mut cache, "b", 10, 10);
    assert!(cache.contains(b"shown"));
    assert!(!cache.contains(b"b"));
}
