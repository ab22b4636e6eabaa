//! The response cache: responses under string keys, each with a time to
//! live, within a byte budget that is kept by evicting the least used
//! entry.
//!
//! What the cache holds is modelled in [`crate::cache_model`]; every
//! operation of [`ResponseCache`] is stated as one function of that model.

use vstd::prelude::*;
use crate::cache_model::{
    find_key, fresh_entry, lemma_cleanup_keeps_wf, lemma_find_key, lemma_get_keeps_wf,
    lemma_make_room, lemma_put_keeps_wf, lemma_total_size_push, lemma_total_size_remove,
    lemma_total_size_update, live_slots, make_room, total_size, victim, CacheModel, EntryModel,
    SlotModel,
};
use crate::count::{bump, raised};
use crate::text::{
    chars_of, ends_with, has_prefix, has_suffix, lowercase_of, maybe_text, push_text, starts_with,
    string_of, to_lowercase,
};
use crate::time::{Clock, Span};

verus! {

/// The byte budget of a cache made with size zero: 100 MiB.
pub const DEFAULT_MAX_CACHE_SIZE: usize = 104_857_600;

/// The time to live, in seconds, of a cache made with time to live zero.
pub const DEFAULT_TTL_SECS: u64 = 300;

/// The seconds between two sweeps that remove what has expired.
pub const CLEANUP_INTERVAL_SECS: u64 = 60;

/// A stored response.
#[derive(Clone)]
pub struct CacheEntry {
    /// The response body.
    pub body: Vec<u8>,
    /// The value of its `Content-Type` header.
    pub content_type: String,
    /// The HTTP status code.
    pub status_code: u16,
    /// The headers kept with the response, as name and value.
    pub headers: Vec<(String, String)>,
    /// When the entry was stored.
    pub created_at: Span,
    /// How long the entry may be served.
    pub ttl: Span,
    /// How often the entry has been served.
    pub hit_count: u64,
    /// The length of the body in bytes.
    pub size: usize,
}

impl View for CacheEntry {
    type V = EntryModel;

    open spec fn view(&self) -> EntryModel {
        EntryModel {
            body: self.body@,
            content_type: self.content_type@,
            status_code: self.status_code,
            headers: self.headers.deep_view(),
            created_at: self.created_at,
            ttl: self.ttl,
            hit_count: self.hit_count,
            size: self.size,
        }
    }
}

impl CacheEntry {
    /// Whether the entry is past its time to live at `now`.
    pub fn is_expired(&self, now: Span) -> (r: bool)
        ensures
            r == self@.is_expired(now),
    {
        now.saturating_sub(self.created_at).nanos > self.ttl.nanos
    }

    /// How much of the time to live is left at `now`.
    pub fn time_remaining(&self, now: Span) -> (r: Span)
        ensures
            r.nanos == self@.time_remaining(now),
    {
        self.ttl.saturating_sub(now.saturating_sub(self.created_at))
    }

    /// A copy of the entry.
    pub fn snapshot(&self) -> (r: CacheEntry)
        ensures
            r@ == self@,
    {
        let mut headers: Vec<(String, String)> = Vec::new();
        let mut i: usize = 0;
        while i < self.headers.len()
            invariant
                i <= self.headers.len(),
                headers@ == self.headers@.take(i as int),
            decreases self.headers.len() - i,
        {
            let name = self.headers[i].0.clone();
            let value = self.headers[i].1.clone();
            headers.push((name, value));
            i += 1;
        }
        assert(headers.deep_view() =~= self.headers.deep_view());
        let body = self.body.clone();
        CacheEntry {
            body,
            content_type: self.content_type.clone(),
            status_code: self.status_code,
            headers,
            created_at: self.created_at,
            ttl: self.ttl,
            hit_count: self.hit_count,
            size: self.size,
        }
    }
}

/// The counters of a cache.
#[derive(Debug, Clone, Copy, PartialEq, Eq, Structural)]
pub struct CacheStats {
    /// Lookups answered from the cache.
    pub hits: u64,
    /// Lookups that found nothing to serve.
    pub misses: u64,
    /// Bytes of the bodies served from the cache.
    pub bytes_served: u64,
    /// Bytes that did not have to be fetched.
    pub bytes_saved: u64,
    /// Bytes of the bodies now stored.
    pub current_size: usize,
    /// Entries now stored.
    pub entry_count: usize,
    /// Entries removed to make room.
    pub evictions: u64,
}

impl Default for CacheStats {
    fn default() -> (r: CacheStats)
        ensures
            r == CacheStats::empty(),
    {
        CacheStats {
            hits: 0,
            misses: 0,
            bytes_served: 0,
            bytes_saved: 0,
            current_size: 0,
            entry_count: 0,
            evictions: 0,
        }
    }
}

impl CacheStats {
    /// The counters of a cache that was never used.
    pub open spec fn empty() -> CacheStats {
        CacheStats {
            hits: 0,
            misses: 0,
            bytes_served: 0,
            bytes_saved: 0,
            current_size: 0,
            entry_count: 0,
            evictions: 0,
        }
    }

    /// The hits in a thousand lookups; zero before the first lookup.
    pub open spec fn per_mille(self) -> nat {
        if self.hits + self.misses == 0 {
            0
        } else {
            (self.hits * 1000 / (self.hits + self.misses)) as nat
        }
    }

    /// The share of lookups answered from the cache, in thousandths and
    /// rounded down: between 0 and 1000, and 0 before the first lookup.
    pub fn hit_rate_per_mille(&self) -> (r: u64)
        ensures
            r == self.per_mille(),
            r <= 1000,
            self.hits + self.misses == 0 ==> r == 0,
    {
        let total: u128 = self.hits as u128 + self.misses as u128;
        if total == 0 {
            0
        } else {
            let scaled: u128 = self.hits as u128 * 1000;
            let rate: u128 = scaled / total;
            assert(rate <= 1000) by (nonlinear_arith)
                requires
                    rate == scaled / total,
                    scaled == self.hits * 1000,
                    total >= self.hits,
                    total > 0,
            ;
            rate as u64
        }
    }
}

pub(crate) struct Slot {
    pub key: String,
    pub entry: CacheEntry,
}

impl View for Slot {
    type V = SlotModel;

    closed spec fn view(&self) -> SlotModel {
        SlotModel { key: self.key@, entry: self.entry@ }
    }
}

pub(crate) closed spec fn slot_models(entries: Seq<Slot>) -> Seq<SlotModel> {
    entries.map_values(|s: Slot| s@)
}

/// What is served, if anything, as a model.
pub open spec fn served_view(served: Option<CacheEntry>) -> Option<EntryModel> {
    match served {
        Some(e) => Some(e@),
        None => None,
    }
}

/// The byte budget of a cache made for `max_size_mb` MiB.
pub open spec fn budget_for(max_size_mb: u64) -> usize {
    if max_size_mb == 0 {
        DEFAULT_MAX_CACHE_SIZE
    } else {
        (max_size_mb * 1_048_576) as usize
    }
}

/// The default time to live of a cache made with `ttl_secs`.
pub open spec fn default_ttl_for(ttl_secs: u64) -> Span {
    if ttl_secs == 0 {
        Span::of_secs(DEFAULT_TTL_SECS)
    } else {
        Span::of_secs(ttl_secs)
    }
}

/// The entries and counters of a cache.
pub(crate) struct Store {
    entries: Vec<Slot>,
    max_size: usize,
    default_ttl: Span,
    stats: CacheStats,
    enabled: bool,
}

impl View for Store {
    type V = CacheModel;

    closed spec fn view(&self) -> CacheModel {
        CacheModel {
            slots: slot_models(self.entries@),
            stats: self.stats,
            max_size: self.max_size,
            default_ttl: self.default_ttl,
            enabled: self.enabled,
        }
    }
}

impl Store {
    /// An empty store, to stand in for one that is being worked on.
    fn placeholder() -> (r: Store)
        ensures
            r.wf(),
    {
        let r = Store {
            entries: Vec::new(),
            max_size: 1,
            default_ttl: Span::from_nanos(1),
            stats: CacheStats::default(),
            enabled: false,
        };
        r
    }

    /// What the store promises of itself at all times.
    pub(crate) open spec fn wf(&self) -> bool {
        self@.wf()
    }

    /// An empty cache with a budget of `max_size_mb` MiB (100 where it is
    /// zero) and a default time to live of `ttl_secs` seconds (300 where it
    /// is zero).
    pub(crate) fn new(max_size_mb: u64, ttl_secs: u64, enabled: bool) -> (r: Self)
        requires
            max_size_mb * 1_048_576 <= usize::MAX,
        ensures
            r.wf(),
            r@ == (CacheModel {
                slots: Seq::empty(),
                stats: CacheStats::empty(),
                max_size: budget_for(max_size_mb),
                default_ttl: default_ttl_for(ttl_secs),
                enabled,
            }),
    {
        let max_size: usize = if max_size_mb == 0 {
            DEFAULT_MAX_CACHE_SIZE
        } else {
            (max_size_mb * 1_048_576) as usize
        };
        let default_ttl = if ttl_secs == 0 {
            Span::from_secs(DEFAULT_TTL_SECS)
        } else {
            Span::from_secs(ttl_secs)
        };
        let r = Store {
            entries: Vec::new(),
            max_size,
            default_ttl,
            stats: CacheStats::default(),
            enabled,
        };
        assert(slot_models(r.entries@) =~= Seq::empty());
        r
    }

    /// The counters.
    pub(crate) fn get_stats(&self) -> (r: CacheStats)
        ensures
            r == self@.stats,
    {
        self.stats
    }

    fn find_slot(&self, key: &str) -> (i: usize)
        ensures
            i == find_key(self@.slots, key@, 0),
            i <= self.entries.len(),
    {
        let wanted = key.to_owned();
        let mut i: usize = 0;
        while i < self.entries.len()
            invariant
                i <= self.entries.len(),
                wanted@ == key@,
                find_key(self@.slots, key@, 0) == find_key(self@.slots, key@, i as int),
            decreases self.entries.len() - i,
        {
            if self.entries[i].key == wanted {
                return i;
            }
            i += 1;
        }
        i
    }

    fn find_victim(&self) -> (v: usize)
        requires
            self.entries.len() > 0,
        ensures
            v == victim(self@.slots),
            v < self.entries.len(),
    {
        let mut best: usize = 0;
        let mut i: usize = 1;
        while i < self.entries.len()
            invariant
                1 <= i <= self.entries.len(),
                best < i,
                best == victim(self@.slots.take(i as int)),
            decreases self.entries.len() - i,
        {
            let ghost head = self@.slots.take(i + 1);
            proof {
                assert(head.drop_last() =~= self@.slots.take(i as int));
            }
            let a = &self.entries[i].entry;
            let b = &self.entries[best].entry;
            if a.hit_count < b.hit_count || (a.hit_count == b.hit_count && a.created_at.nanos
                < b.created_at.nanos) {
                best = i;
            }
            i += 1;
        }
        assert(self@.slots.take(i as int) =~= self@.slots);
        best
    }

    fn ensure_space(&mut self, needed: usize)
        requires
            old(self).wf(),
        ensures
            final(self)@ == (CacheModel {
                slots: make_room(old(self)@.slots, needed as nat, old(self).max_size as nat),
                stats: CacheStats {
                    current_size: total_size(final(self)@.slots) as usize,
                    entry_count: final(self)@.slots.len() as usize,
                    evictions: bump(
                        old(self)@.stats.evictions,
                        (old(self)@.slots.len() - final(self)@.slots.len()) as nat,
                    ),
                    ..old(self)@.stats
                },
                ..old(self)@
            }),
            final(self).wf(),
    {
        while needed > self.max_size - self.stats.current_size && self.entries.len() > 0
            invariant
                self.wf(),
                self.max_size == old(self).max_size,
                self.default_ttl == old(self).default_ttl,
                self.enabled == old(self).enabled,
                self@.slots.len() <= old(self)@.slots.len(),
                make_room(old(self)@.slots, needed as nat, old(self).max_size as nat) == make_room(
                    self@.slots,
                    needed as nat,
                    self.max_size as nat,
                ),
                self.stats == (CacheStats {
                    current_size: self.stats.current_size,
                    entry_count: self.stats.entry_count,
                    evictions: bump(
                        old(self)@.stats.evictions,
                        (old(self)@.slots.len() - self@.slots.len()) as nat,
                    ),
                    ..old(self)@.stats
                }),
            decreases self.entries.len(),
        {
            let v = self.find_victim();
            let ghost before = self@.slots;
            proof {
                lemma_total_size_remove(before, v as int);
            }
            let slot = self.entries.remove(v);
            assert(slot_models(self.entries@) =~= before.remove(v as int));
            self.stats.current_size = self.stats.current_size - slot.entry.size;
            self.stats.entry_count = self.entries.len();
            self.stats.evictions = raised(self.stats.evictions, 1);
        }
    }

    /// Looks `key` up at the time `now`; see [`CacheModel::get`].
    pub(crate) fn get_at(&mut self, key: &str, now: Span) -> (r: Option<CacheEntry>)
        requires
            old(self).wf(),
        ensures
            final(self).wf(),
            final(self)@ == old(self)@.get(key@, now).0,
            served_view(r) == old(self)@.get(key@, now).1,
    {
        proof {
            lemma_get_keeps_wf(self@, key@, now);
        }
        if !self.enabled {
            return None;
        }
        let i = self.find_slot(key);
        if i >= self.entries.len() {
            self.stats.misses = raised(self.stats.misses, 1);
            return None;
        }
        let ghost before = self@.slots;
        proof {
            lemma_find_key(before, key@, 0);
        }
        if self.entries[i].entry.is_expired(now) {
            proof {
                lemma_total_size_remove(before, i as int);
            }
            let slot = self.entries.remove(i);
            assert(slot_models(self.entries@) =~= before.remove(i as int));
            self.stats.current_size = self.stats.current_size - slot.entry.size;
            self.stats.entry_count = self.entries.len();
            self.stats.misses = raised(self.stats.misses, 1);
            return None;
        }
        let hits = raised(self.entries[i].entry.hit_count, 1);
        self.entries[i].entry.hit_count = hits;
        let served = self.entries[i].entry.snapshot();
        assert(slot_models(self.entries@) =~= before.update(
            i as int,
            SlotModel { key: key@, entry: served@ },
        ));
        self.stats.hits = raised(self.stats.hits, 1);
        self.stats.bytes_served = raised(self.stats.bytes_served, served.size as u64);
        self.stats.bytes_saved = raised(self.stats.bytes_saved, served.size as u64);
        Some(served)
    }

    /// Offers a response received at `now` under `key`; see
    /// [`CacheModel::put`]. Its time to live is `custom_ttl`, or the
    /// cache's default where there is none.
    pub(crate) fn put_at(
        &mut self,
        key: String,
        body: Vec<u8>,
        content_type: String,
        status_code: u16,
        headers: Vec<(String, String)>,
        custom_ttl: Option<Span>,
        now: Span,
    )
        requires
            old(self).wf(),
        ensures
            final(self).wf(),
            final(self)@ == old(self)@.put(
                key@,
                fresh_entry(
                    body@,
                    content_type@,
                    status_code,
                    headers.deep_view(),
                    old(self)@.ttl_for(custom_ttl),
                    now,
                ),
            ),
    {
        let ttl = match custom_ttl {
            Some(t) => t,
            None => self.default_ttl,
        };
        let size = body.len();
        if !self.enabled || size > self.max_size / 10 {
            return ;
        }
        let ghost start = self@;
        let ghost model = fresh_entry(
            body@,
            content_type@,
            status_code,
            headers.deep_view(),
            ttl,
            now,
        );
        self.ensure_space(size);
        let ghost kept = self@.slots;
        let entry = CacheEntry {
            body,
            content_type,
            status_code,
            headers,
            created_at: now,
            ttl,
            hit_count: 0,
            size,
        };
        let i = self.find_slot(key.as_str());
        proof {
            lemma_make_room(start.slots, size as nat, start.max_size as nat, start.max_size);
        }
        let ghost slot_model = SlotModel { key: key@, entry: model };
        if ttl.nanos == 0 {
            // Nothing is stored that could never be served, and what the key
            // had gives way to it.
            if i < self.entries.len() {
                proof {
                    lemma_total_size_remove(kept, i as int);
                }
                let gone = self.entries.remove(i);
                assert(slot_models(self.entries@) =~= kept.remove(i as int));
                self.stats.current_size = self.stats.current_size - gone.entry.size;
            }
        } else if i < self.entries.len() {
            proof {
                lemma_total_size_update(kept, i as int, slot_model);
                lemma_total_size_remove(kept, i as int);
            }
            let old_size = self.entries[i].entry.size;
            self.entries[i] = Slot { key, entry };
            assert(slot_models(self.entries@) =~= kept.update(i as int, slot_model));
            self.stats.current_size = self.stats.current_size - old_size + size;
        } else {
            proof {
                lemma_total_size_push(kept, slot_model);
            }
            self.entries.push(Slot { key, entry });
            assert(slot_models(self.entries@) =~= kept.push(slot_model));
            self.stats.current_size = self.stats.current_size + size;
        }
        self.stats.entry_count = self.entries.len();
        proof {
            lemma_put_keeps_wf(start, slot_model.key, model);
        }
    }

    /// Removes the entries past their time to live at `now`; see
    /// [`CacheModel::cleanup`].
    pub(crate) fn cleanup_at(&mut self, now: Span)
        requires
            old(self).wf(),
        ensures
            final(self).wf(),
            final(self)@ == old(self)@.cleanup(now),
    {
        let ghost start = self@;
        let ghost done: int = 0;
        let mut i: usize = 0;
        while i < self.entries.len()
            invariant
                self.max_size == start.max_size,
                self.default_ttl == start.default_ttl,
                self.enabled == start.enabled,
                start.wf(),
                start.max_size > 0,
                0 <= done <= start.slots.len(),
                i == live_slots(start.slots.take(done), now).len(),
                self@.slots == live_slots(start.slots.take(done), now) + start.slots.skip(done),
                self.stats == (CacheStats {
                    current_size: self.stats.current_size,
                    entry_count: self.stats.entry_count,
                    ..start.stats
                }),
                self.stats.current_size == total_size(self@.slots),
            decreases start.slots.len() - done,
        {
            let ghost before = self@.slots;
            proof {
                reveal(Seq::filter);
                assert(before[i as int] == self.entries@[i as int]@);
                assert(start.slots.take(done + 1).drop_last() =~= start.slots.take(done));
            }
            if self.entries[i].entry.is_expired(now) {
                proof {
                    lemma_total_size_remove(before, i as int);
                }
                let slot = self.entries.remove(i);
                assert(slot_models(self.entries@) =~= before.remove(i as int));
                self.stats.current_size = self.stats.current_size - slot.entry.size;
            } else {
                i += 1;
            }
            proof {
                done = done + 1;
            }
        }
        proof {
            assert(start.slots.take(done) =~= start.slots);
            lemma_cleanup_keeps_wf(start, now);
        }
        self.stats.entry_count = self.entries.len();
    }

    /// Removes every entry; see [`CacheModel::clear`].
    pub(crate) fn clear(&mut self)
        requires
            old(self).wf(),
        ensures
            final(self).wf(),
            final(self)@ == old(self)@.clear(),
    {
        self.entries.clear();
        self.stats.current_size = 0;
        self.stats.entry_count = 0;
        assert(slot_models(self.entries@) =~= Seq::empty());
    }
}

/// An in-memory cache of responses.
///
/// At all times its counters agree with its entries, the entries are within
/// the byte budget, and no key occurs twice: see [`CacheModel::wf`].
pub struct ResponseCache {
    store: Store,
    clock: Clock,
}

impl View for ResponseCache {
    type V = CacheModel;

    closed spec fn view(&self) -> CacheModel {
        self.store@
    }
}

impl ResponseCache {
    #[verifier::type_invariant]
    pub(crate) open spec fn holds_together(&self) -> bool {
        self@.wf()
    }

    /// An empty cache with a budget of `max_size_mb` MiB (100 where it is
    /// zero) and a default time to live of `ttl_secs` seconds (300 where it
    /// is zero).
    pub fn new(max_size_mb: u64, ttl_secs: u64, enabled: bool) -> (r: Self)
        requires
            max_size_mb * 1_048_576 <= usize::MAX,
        ensures
            r@.wf(),
            r@ == (CacheModel {
                slots: Seq::empty(),
                stats: CacheStats::empty(),
                max_size: budget_for(max_size_mb),
                default_ttl: default_ttl_for(ttl_secs),
                enabled,
            }),
    {
        ResponseCache { store: Store::new(max_size_mb, ttl_secs, enabled), clock: Clock::start() }
    }

    /// The time on the cache's own clock.
    pub fn now(&self) -> Span {
        self.clock.now()
    }

    /// The counters. They agree with the entries.
    pub fn get_stats(&self) -> (r: CacheStats)
        ensures
            r == self@.stats,
            self@.wf(),
            r.current_size == total_size(self@.slots),
            r.entry_count == self@.slots.len(),
            r.current_size <= self@.max_size,
    {
        proof {
            use_type_invariant(self);
        }
        self.store.get_stats()
    }

    /// Looks `key` up at the time `now`; see [`CacheModel::get`]. What is
    /// served is within its time to live.
    pub fn get_at(&mut self, key: &str, now: Span) -> (r: Option<CacheEntry>)
        ensures
            final(self)@ == old(self)@.get(key@, now).0,
            served_view(r) == old(self)@.get(key@, now).1,
            r matches Some(e) ==> !e@.is_expired(now),
            old(self)@.wf(),
            final(self)@.wf(),
    {
        proof {
            use_type_invariant(&*self);
        }
        // The store is taken out while it is worked on, so that the cache
        // holds together whatever happens in between.
        let mut store = Store::placeholder();
        std::mem::swap(&mut self.store, &mut store);
        let served = store.get_at(key, now);
        std::mem::swap(&mut self.store, &mut store);
        served
    }

    /// Looks `key` up at the time the cache's clock shows.
    pub fn get(&mut self, key: &str) -> (r: Option<CacheEntry>)
        ensures
            exists|now: Span|
                {
                    &&& final(self)@ == (#[trigger] old(self)@.get(key@, now)).0
                    &&& served_view(r) == old(self)@.get(key@, now).1
                },
            final(self)@.wf(),
    {
        let now = self.now();
        self.get_at(key, now)
    }

    /// Offers a response received at `now` under `key`; see
    /// [`CacheModel::put`]. Its time to live is `custom_ttl`, or the
    /// cache's default where there is none.
    pub fn put_at(
        &mut self,
        key: String,
        body: Vec<u8>,
        content_type: String,
        status_code: u16,
        headers: Vec<(String, String)>,
        custom_ttl: Option<Span>,
        now: Span,
    )
        ensures
            final(self)@ == old(self)@.put(
                key@,
                fresh_entry(
                    body@,
                    content_type@,
                    status_code,
                    headers.deep_view(),
                    old(self)@.ttl_for(custom_ttl),
                    now,
                ),
            ),
            old(self)@.wf(),
            final(self)@.wf(),
            final(self)@.stats.current_size <= final(self)@.max_size,
    {
        proof {
            use_type_invariant(&*self);
        }
        let mut store = Store::placeholder();
        std::mem::swap(&mut self.store, &mut store);
        store.put_at(key, body, content_type, status_code, headers, custom_ttl, now);
        std::mem::swap(&mut self.store, &mut store);
    }

    /// Offers a response received now, by the cache's clock, under `key`.
    pub fn put(
        &mut self,
        key: String,
        body: Vec<u8>,
        content_type: String,
        status_code: u16,
        headers: Vec<(String, String)>,
        custom_ttl: Option<Span>,
    )
        ensures
            exists|now: Span|
                final(self)@ == old(self)@.put(
                    key@,
                    #[trigger] fresh_entry(
                        body@,
                        content_type@,
                        status_code,
                        headers.deep_view(),
                        old(self)@.ttl_for(custom_ttl),
                        now,
                    ),
                ),
            final(self)@.wf(),
    {
        let now = self.now();
        self.put_at(key, body, content_type, status_code, headers, custom_ttl, now)
    }

    /// Removes the entries past their time to live at `now`; see
    /// [`CacheModel::cleanup`]. Every entry that is left is within its time
    /// to live.
    pub fn cleanup_at(&mut self, now: Span)
        ensures
            final(self)@ == old(self)@.cleanup(now),
            forall|i: int|
                0 <= i < final(self)@.slots.len() ==> !(#[trigger] final(self)@.slots[i])
                    .entry.is_expired(now),
            old(self)@.wf(),
            final(self)@.wf(),
    {
        proof {
            use_type_invariant(&*self);
        }
        let mut store = Store::placeholder();
        std::mem::swap(&mut self.store, &mut store);
        store.cleanup_at(now);
        std::mem::swap(&mut self.store, &mut store);
    }

    /// Removes the entries past their time to live now, by the cache's
    /// clock.
    pub fn cleanup(&mut self)
        ensures
            exists|now: Span| final(self)@ == #[trigger] old(self)@.cleanup(now),
            final(self)@.wf(),
    {
        let now = self.now();
        self.cleanup_at(now)
    }

    /// Removes every entry; see [`CacheModel::clear`].
    pub fn clear(&mut self)
        ensures
            final(self)@ == old(self)@.clear(),
            final(self)@.wf(),
    {
        proof {
            use_type_invariant(&*self);
        }
        let mut store = Store::placeholder();
        std::mem::swap(&mut self.store, &mut store);
        store.clear();
        std::mem::swap(&mut self.store, &mut store);
    }
}

/// A lowercase path ends with one of the extensions of static assets.
pub open spec fn cacheable_path(path: Seq<char>) -> bool {
    ||| has_suffix(path, ".js"@)
    ||| has_suffix(path, ".css"@)
    ||| has_suffix(path, ".png"@)
    ||| has_suffix(path, ".jpg"@)
    ||| has_suffix(path, ".jpeg"@)
    ||| has_suffix(path, ".gif"@)
    ||| has_suffix(path, ".svg"@)
    ||| has_suffix(path, ".woff"@)
    ||| has_suffix(path, ".woff2"@)
    ||| has_suffix(path, ".ttf"@)
    ||| has_suffix(path, ".eot"@)
    ||| has_suffix(path, ".ico"@)
    ||| has_suffix(path, ".webp"@)
    ||| has_suffix(path, ".avif"@)
}

/// A lowercase content type begins with one of the media types of static
/// assets. Every image type is one.
pub open spec fn cacheable_type(content_type: Seq<char>) -> bool {
    ||| has_prefix(content_type, "text/css"@)
    ||| has_prefix(content_type, "text/javascript"@)
    ||| has_prefix(content_type, "application/javascript"@)
    ||| has_prefix(content_type, "application/json"@)
    ||| has_prefix(content_type, "image/"@)
    ||| has_prefix(content_type, "font/woff"@)
    ||| has_prefix(content_type, "font/woff2"@)
    ||| has_prefix(content_type, "application/font-woff"@)
    ||| has_prefix(content_type, "application/font-woff2"@)
}

/// A response to a request for `path` with the given content type, if it
/// has one, may be stored: the path in lowercase ends with a cacheable
/// extension, or the content type in lowercase begins with a cacheable
/// media type.
pub open spec fn is_cacheable(path: Seq<char>, content_type: Option<Seq<char>>) -> bool {
    cacheable_path(lowercase_of(path)) || match content_type {
        Some(ct) => cacheable_type(lowercase_of(ct)),
        None => false,
    }
}

/// The key of a request: method, colon and path, then a question mark and
/// the query where that is not empty.
pub open spec fn key_text(method: Seq<char>, path: Seq<char>, query: Option<Seq<char>>) -> Seq<
    char,
> {
    match query {
        Some(q) => if q.len() > 0 {
            method + ":"@ + path + "?"@ + q
        } else {
            method + ":"@ + path
        },
        None => method + ":"@ + path,
    }
}

fn suffixed(text: &[char], suffix: &str) -> (r: bool)
    ensures
        r == has_suffix(text@, suffix@),
{
    let s = chars_of(suffix);
    ends_with(text, s.as_slice())
}

fn prefixed(text: &[char], prefix: &str) -> (r: bool)
    ensures
        r == has_prefix(text@, prefix@),
{
    let p = chars_of(prefix);
    starts_with(text, p.as_slice())
}

/// Whether a path, given in lowercase, ends with a cacheable extension.
pub fn path_is_cacheable(lowercase_path: &str) -> (r: bool)
    ensures
        r == cacheable_path(lowercase_path@),
{
    let t = chars_of(lowercase_path);
    let t = t.as_slice();
    suffixed(t, ".js") || suffixed(t, ".css") || suffixed(t, ".png") || suffixed(t, ".jpg")
        || suffixed(t, ".jpeg") || suffixed(t, ".gif") || suffixed(t, ".svg") || suffixed(
        t,
        ".woff",
    ) || suffixed(t, ".woff2") || suffixed(t, ".ttf") || suffixed(t, ".eot") || suffixed(t, ".ico")
        || suffixed(t, ".webp") || suffixed(t, ".avif")
}

/// Whether a content type, given in lowercase, begins with a cacheable
/// media type.
pub fn type_is_cacheable(lowercase_type: &str) -> (r: bool)
    ensures
        r == cacheable_type(lowercase_type@),
{
    let t = chars_of(lowercase_type);
    let t = t.as_slice();
    prefixed(t, "text/css") || prefixed(t, "text/javascript") || prefixed(
        t,
        "application/javascript",
    ) || prefixed(t, "application/json") || prefixed(t, "image/") || prefixed(t, "font/woff")
        || prefixed(t, "font/woff2") || prefixed(t, "application/font-woff") || prefixed(
        t,
        "application/font-woff2",
    )
}

impl ResponseCache {
    /// Whether a response to a request for `path` with the given content
    /// type may be stored. A disabled cache stores nothing.
    pub fn should_cache(&self, path: &str, content_type: Option<&str>) -> (r: bool)
        ensures
            r == (self@.enabled && is_cacheable(path@, maybe_text(content_type))),
    {
        if !self.store.enabled {
            return false;
        }
        let path_lower = to_lowercase(path);
        if path_is_cacheable(path_lower.as_str()) {
            return true;
        }
        match content_type {
            Some(ct) => {
                let ct_lower = to_lowercase(ct);
                type_is_cacheable(ct_lower.as_str())
            },
            None => false,
        }
    }

    /// The key under which the response to a request is stored.
    pub fn cache_key(method: &str, path: &str, query: Option<&str>) -> (r: String)
        ensures
            r@ == key_text(method@, path@, maybe_text(query)),
    {
        let mut out: Vec<char> = Vec::new();
        push_text(&mut out, method);
        push_text(&mut out, ":");
        push_text(&mut out, path);
        match query {
            Some(q) => {
                if !q.is_empty() {
                    push_text(&mut out, "?");
                    push_text(&mut out, q);
                }
            },
            None => {},
        }
        string_of(out.as_slice())
    }
}

} // verus!
