//! The time-to-live cache: slots carrying a payload and the time it was last
//! refreshed, classified as fresh, stale or empty against a caller-supplied
//! clock reading.

use vstd::prelude::*;
use std::collections::HashMap;
use crate::ClassID;
use crate::data::{ClassEntry, ClassItemEntryContents, ClassPageData};

verus! {

/// How long a cache slot stays fresh, in seconds.
pub const CACHE_TIMEOUT_SECONDS: u64 = 600;

/// Freshness of one cache slot.
#[derive(Clone, Copy, Debug, PartialEq, Eq, Structural)]
pub enum CacheDataState {
    Fresh,
    Stale,
    Empty,
}

/// A payload together with the time it was last refreshed. Time zero (the
/// epoch) marks a slot that has never been written.
#[derive(Clone, Debug)]
pub struct TimedComponent<T> {
    pub prev_update: u64,
    pub data: T,
}

impl<T: Default> Default for TimedComponent<T> {
    /// A never-written slot holding the default payload.
    fn default() -> (r: Self)
        ensures
            r.prev_update == 0,
    {
        TimedComponent { prev_update: 0, data: T::default() }
    }
}

/// Freshness of a slot refreshed at `prev`, read at `now`. A clock that moved
/// backwards past the refresh time reads as stale, never as fresh.
pub open spec fn spec_slot_state(has_payload: bool, prev: u64, now: u64) -> CacheDataState {
    if !has_payload {
        CacheDataState::Empty
    } else if prev <= now && now - prev < CACHE_TIMEOUT_SECONDS {
        CacheDataState::Fresh
    } else {
        CacheDataState::Stale
    }
}

/// The backend's cache: one slot for the class listing, one slot per class
/// page, and one for assignment contents. The slots are independent; writing
/// one never touches the others.
#[derive(Clone, Debug)]
pub struct BackendCache {
    pub class_listing: TimedComponent<Option<Vec<ClassEntry>>>,
    pub class_data: HashMap<u64, TimedComponent<ClassPageData>>,
    pub assignment_data: TimedComponent<Option<HashMap<u64, ClassItemEntryContents>>>,
}

/// Freshness of the class-listing slot of `cache` at time `now`.
pub open spec fn spec_listing_state(cache: BackendCache, now: u64) -> CacheDataState {
    spec_slot_state(
        cache.class_listing.data is Some,
        cache.class_listing.prev_update,
        now,
    )
}

/// Freshness of the per-class slot for `id` at time `now`.
pub open spec fn spec_class_data_state(cache: BackendCache, id: ClassID, now: u64) -> CacheDataState {
    if cache.class_data@.contains_key(id.0) {
        spec_slot_state(true, cache.class_data@[id.0].prev_update, now)
    } else {
        CacheDataState::Empty
    }
}

impl BackendCache {
    /// The slot time-to-live, in seconds.
    pub fn get_timeout() -> (r: u64)
        ensures
            r == CACHE_TIMEOUT_SECONDS,
    {
        CACHE_TIMEOUT_SECONDS
    }

    /// An empty cache: no listing, no class pages, no assignment data.
    pub fn new() -> (r: BackendCache)
        ensures
            r.class_listing.data is None,
            r.class_listing.prev_update == 0,
            r.class_data@ == Map::<u64, TimedComponent<ClassPageData>>::empty(),
            r.assignment_data.data is None,
            r.assignment_data.prev_update == 0,
    {
        BackendCache {
            class_listing: TimedComponent { prev_update: 0, data: None },
            class_data: HashMap::new(),
            assignment_data: TimedComponent { prev_update: 0, data: None },
        }
    }

    /// Freshness of the class-listing slot at time `now` (seconds).
    pub fn get_class_listing_state(&self, now: u64) -> (r: CacheDataState)
        ensures
            r == spec_listing_state(*self, now),
    {
        match &self.class_listing.data {
            Some(_) => {
                let prev = self.class_listing.prev_update;
                if prev <= now && now - prev < CACHE_TIMEOUT_SECONDS {
                    CacheDataState::Fresh
                } else {
                    CacheDataState::Stale
                }
            },
            None => CacheDataState::Empty,
        }
    }

    /// Freshness of the per-class slot for `id` at time `now` (seconds).
    pub fn get_class_data_state(&self, id: ClassID, now: u64) -> (r: CacheDataState)
        ensures
            r == spec_class_data_state(*self, id, now),
    {
        match self.class_data.get(&id.0) {
            Some(slot) => {
                let prev = slot.prev_update;
                if prev <= now && now - prev < CACHE_TIMEOUT_SECONDS {
                    CacheDataState::Fresh
                } else {
                    CacheDataState::Stale
                }
            },
            None => CacheDataState::Empty,
        }
    }

    /// Store a class listing, stamping it with the time of the write. The
    /// other slots are left untouched.
    pub fn write_class_listing(&mut self, payload: Vec<ClassEntry>, now: u64)
        ensures
            final(self).class_listing.prev_update == now,
            final(self).class_listing.data == Some(payload),
            final(self).class_data == old(self).class_data,
            final(self).assignment_data == old(self).assignment_data,
    {
        self.class_listing = TimedComponent { prev_update: now, data: Some(payload) };
    }

    /// Store one class page, stamping it with the time of the write. Other
    /// per-class slots and the listing slot are left untouched.
    pub fn write_class_data(&mut self, id: ClassID, payload: ClassPageData, now: u64)
        ensures
            final(self).class_data@ == old(self).class_data@.insert(
                id.0,
                TimedComponent { prev_update: now, data: payload },
            ),
            final(self).class_listing == old(self).class_listing,
            final(self).assignment_data == old(self).assignment_data,
    {
        self.class_data.insert(id.0, TimedComponent { prev_update: now, data: payload });
    }
}

/// Law: if the class-listing slot was written at time `t` with some payload,
/// then reading its state at any later time `t2` yields `Fresh` exactly when
/// less than the time-to-live has passed, and `Stale` exactly otherwise, as
/// long as no further write intervened.
pub proof fn lemma_ttl_freshness(cache: BackendCache, t: u64, t2: u64)
    requires
        cache.class_listing.data is Some,
        cache.class_listing.prev_update == t,
        t <= t2,
    ensures
        (t2 - t < CACHE_TIMEOUT_SECONDS) <==> (spec_listing_state(cache, t2)
            == CacheDataState::Fresh),
        (t2 - t >= CACHE_TIMEOUT_SECONDS) <==> (spec_listing_state(cache, t2)
            == CacheDataState::Stale),
{
}

} // verus!
