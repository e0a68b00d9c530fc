use bbs_core::cache::{BackendCache, CacheDataState, CACHE_TIMEOUT_SECONDS};
use bbs_core::data::{ClassEntry, ClassPageData, SectionData, SectionDataGuts};
use bbs_core::ClassID;
use std::collections::HashMap;

fn one_entry() -> ClassEntry {
    ClassEntry {
        name: "Math".to_string(),
        section: SectionData { guts: SectionDataGuts::Bad("raw".to_string()) },
        picture: Vec::new(),
        id: ClassID(7),
    }
}

#[test]
fn timeout_is_ten_minutes() {
    assert_eq!(BackendCache::get_timeout(), 600);
    assert_eq!(CACHE_TIMEOUT_SECONDS, 600);
}

#[test]
fn empty_cache_reads_empty() {
    let cache = BackendCache::new();
    assert_eq!(cache.get_class_listing_state(0), CacheDataState::Empty);
    assert_eq!(cache.get_class_listing_state(u64::MAX), CacheDataState::Empty);
    assert_eq!(cache.get_class_data_state(ClassID(1), 0), CacheDataState::Empty);
}

#[test]
fn written_slot_is_fresh_within_ttl_and_stale_after() {
    let mut cache = BackendCache::new();
    let t = 1000;
    cache.write_class_listing(vec![one_entry()], t);
    assert_eq!(cache.get_class_listing_state(t), CacheDataState::Fresh);
    assert_eq!(cache.get_class_listing_state(t + 599), CacheDataState::Fresh);
    assert_eq!(cache.get_class_listing_state(t + 600), CacheDataState::Stale);
    assert_eq!(cache.get_class_listing_state(t + 10_000), CacheDataState::Stale);
}

#[test]
fn clock_before_write_reads_stale_not_fresh() {
    let mut cache = BackendCache::new();
    cache.write_class_listing(Vec::new(), 5000);
    assert_eq!(cache.get_class_listing_state(4000), CacheDataState::Stale);
}

#[test]
fn class_slots_are_independent() {
    let mut cache = BackendCache::new();
    let page = ClassPageData { id: ClassID(3), entry_id_map: HashMap::new(), hierarchy: Vec::new() };
    cache.write_class_data(ClassID(3), page, 100);
    assert_eq!(cache.get_class_data_state(ClassID(3), 150), CacheDataState::Fresh);
    assert_eq!(cache.get_class_data_state(ClassID(4), 150), CacheDataState::Empty);
    // writing a per-class slot leaves the listing slot empty
    assert_eq!(cache.get_class_listing_state(150), CacheDataState::Empty);
    // and writing the listing leaves the per-class slot alone
    cache.write_class_listing(Vec::new(), 100_000);
    assert_eq!(cache.get_class_data_state(ClassID(3), 100_000), CacheDataState::Stale);
}
