use kullflow::cache::{ImageData, ResultCache};

fn image(tag: u8) -> ImageData {
    (vec![tag, tag, tag, 255], 1, 1)
}

#[test]
fn new_cache_is_empty() {
    let cache = ResultCache::new(5);
    for index in 0..10 {
        assert!(!cache.contains(index));
    }
}

#[test]
fn inserted_image_is_contained() {
    let mut cache = ResultCache::new(5);
    cache.insert(3, image(3));
    assert!(cache.contains(3));
    assert!(!cache.contains(4));
}

#[test]
fn hit_is_consumed_exactly_once() {
    let mut cache = ResultCache::new(5);
    cache.insert(3, image(7));
    assert_eq!(cache.get_and_remove(3), Some(image(7)));
    assert!(!cache.contains(3));
    assert_eq!(cache.get_and_remove(3), None);
}

#[test]
fn miss_returns_nothing_and_changes_nothing() {
    let mut cache = ResultCache::new(5);
    cache.insert(1, image(1));
    assert_eq!(cache.get_and_remove(2), None);
    assert!(cache.contains(1));
}

#[test]
fn insert_replaces_the_cached_image() {
    let mut cache = ResultCache::new(5);
    cache.insert(1, image(1));
    cache.insert(1, (vec![9; 8], 2, 1));
    assert_eq!(cache.get_and_remove(1), Some((vec![9; 8], 2, 1)));
    assert_eq!(cache.get_and_remove(1), None);
}

#[test]
fn never_more_entries_than_the_capacity() {
    let mut cache = ResultCache::new(5);
    for index in 0..40usize {
        cache.insert(index, image(index as u8));
        let held = (0..40usize).filter(|i| cache.contains(*i)).count();
        assert!(held <= 5);
        assert_eq!(held, (index + 1).min(5));
    }
}

#[test]
fn full_cache_evicts_the_least_recently_inserted() {
    let mut cache = ResultCache::new(3);
    cache.insert(10, image(1));
    cache.insert(11, image(2));
    cache.insert(12, image(3));
    cache.insert(13, image(4));
    assert!(!cache.contains(10));
    assert!(cache.contains(11) && cache.contains(12) && cache.contains(13));
    cache.insert(14, image(5));
    assert!(!cache.contains(11));
    assert!(cache.contains(12) && cache.contains(13) && cache.contains(14));
}

#[test]
fn inserting_again_renews_a_position() {
    let mut cache = ResultCache::new(3);
    cache.insert(10, image(1));
    cache.insert(11, image(2));
    cache.insert(12, image(3));
    cache.insert(10, image(9));
    cache.insert(13, image(4));
    assert!(cache.contains(10));
    assert!(!cache.contains(11));
    assert_eq!(cache.get_and_remove(10), Some(image(9)));
}

#[test]
fn replacing_in_a_full_cache_evicts_nothing() {
    let mut cache = ResultCache::new(2);
    cache.insert(1, image(1));
    cache.insert(2, image(2));
    cache.insert(2, image(3));
    assert!(cache.contains(1));
    assert!(cache.contains(2));
}

#[test]
fn removal_makes_room() {
    let mut cache = ResultCache::new(2);
    cache.insert(1, image(1));
    cache.insert(2, image(2));
    assert_eq!(cache.get_and_remove(1), Some(image(1)));
    cache.insert(3, image(3));
    assert!(cache.contains(2));
    assert!(cache.contains(3));
}

#[test]
fn cache_of_capacity_zero_holds_nothing() {
    let mut cache = ResultCache::new(0);
    cache.insert(1, image(1));
    assert!(!cache.contains(1));
    assert_eq!(cache.get_and_remove(1), None);
}

#[test]
fn cache_of_capacity_one_holds_the_latest() {
    let mut cache = ResultCache::new(1);
    cache.insert(1, image(1));
    cache.insert(2, image(2));
    assert!(!cache.contains(1));
    assert_eq!(cache.get_and_remove(2), Some(image(2)));
}

#[test]
fn other_images_stay_cached() {
    let mut cache = ResultCache::new(5);
    for index in 1..=5usize {
        cache.insert(index, image(index as u8));
        for earlier in 1..=index {
            assert!(cache.contains(earlier));
        }
    }
    assert_eq!(cache.get_and_remove(3), Some(image(3)));
    for index in [1usize, 2, 4, 5] {
        assert!(cache.contains(index));
    }
    cache.insert(9, image(9));
    for index in [1usize, 2, 4, 5, 9] {
        assert!(cache.contains(index));
    }
    assert_eq!(cache.get_and_remove(1), Some(image(1)));
    assert_eq!(cache.get_and_remove(9), Some(image(9)));
}

#[test]
fn many_insertions_keep_the_latest_five_exactly() {
    let mut cache = ResultCache::new(5);
    for index in 0..300usize {
        cache.insert(index, image((index % 251) as u8));
        for kept in index.saturating_sub(4)..=index {
            assert!(cache.contains(kept));
        }
        if index >= 5 {
            assert!(!cache.contains(index - 5));
        }
    }
    assert_eq!(cache.get_and_remove(297), Some(image((297 % 251) as u8)));
}
