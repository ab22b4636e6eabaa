//! What the response cache holds, as a mathematical model, with the laws
//! that its operations obey.
//!
//! The entries form a sequence, oldest insertion first, in which no key
//! occurs twice. Every operation of the cache is one function from model to
//! model.

use vstd::prelude::*;
use crate::cache::CacheStats;
use crate::count::bump;
use crate::time::Span;

verus! {

/// What a [`crate::cache::CacheEntry`] holds.
pub struct EntryModel {
    pub body: Seq<u8>,
    pub content_type: Seq<char>,
    pub status_code: u16,
    pub headers: Seq<(Seq<char>, Seq<char>)>,
    pub created_at: Span,
    pub ttl: Span,
    pub hit_count: u64,
    pub size: usize,
}

impl EntryModel {
    /// The entry is past its time to live at `now`.
    pub open spec fn is_expired(self, now: Span) -> bool {
        self.created_at.elapsed_at(now) > self.ttl.nanos
    }

    /// How much of the time to live is left at `now`.
    pub open spec fn time_remaining(self, now: Span) -> nat {
        if self.is_expired(now) {
            0
        } else {
            (self.ttl.nanos - self.created_at.elapsed_at(now)) as nat
        }
    }

    /// Whether `self` is evicted before `other`: it was served less often,
    /// or as often and stored earlier.
    pub open spec fn goes_before(self, other: EntryModel) -> bool {
        self.hit_count < other.hit_count || (self.hit_count == other.hit_count
            && self.created_at.nanos < other.created_at.nanos)
    }
}

/// A key with its entry.
pub struct SlotModel {
    pub key: Seq<char>,
    pub entry: EntryModel,
}

/// The bytes of all the bodies in `slots`.
pub open spec fn total_size(slots: Seq<SlotModel>) -> nat
    decreases slots.len(),
{
    if slots.len() == 0 {
        0
    } else {
        total_size(slots.drop_last()) + slots.last().entry.size as nat
    }
}

/// The least index at or after `from` whose slot has the key, or
/// `slots.len()` where no slot has it.
pub open spec fn find_key(slots: Seq<SlotModel>, key: Seq<char>, from: int) -> int
    decreases slots.len() - from,
{
    if from < 0 || from >= slots.len() {
        slots.len() as int
    } else if slots[from].key == key {
        from
    } else {
        find_key(slots, key, from + 1)
    }
}

/// The index of the slot that is evicted first: the first among those
/// served least often and, of these, stored earliest.
pub open spec fn victim(slots: Seq<SlotModel>) -> int
    decreases slots.len(),
{
    if slots.len() <= 1 {
        0
    } else {
        let v = victim(slots.drop_last());
        if slots.last().entry.goes_before(slots[v].entry) {
            slots.len() - 1
        } else {
            v
        }
    }
}

/// What is left of `slots` once room for `needed` more bytes has been made
/// within `max`: victims leave one by one until the bytes fit or nothing is
/// left.
pub open spec fn make_room(slots: Seq<SlotModel>, needed: nat, max: nat) -> Seq<SlotModel>
    decreases slots.len(),
{
    if total_size(slots) + needed > max && slots.len() > 0 {
        proof {
            lemma_victim(slots);
        }
        make_room(slots.remove(victim(slots)), needed, max)
    } else {
        slots
    }
}

/// What is left of `slots` without those past their time to live at `now`.
pub open spec fn live_slots(slots: Seq<SlotModel>, now: Span) -> Seq<SlotModel> {
    slots.filter(|s: SlotModel| !s.entry.is_expired(now))
}

/// No two slots have the same key.
pub open spec fn distinct_keys(slots: Seq<SlotModel>) -> bool {
    forall|i: int, j: int|
        0 <= i < slots.len() && 0 <= j < slots.len() && i != j ==> (#[trigger] slots[i]).key != (
        #[trigger] slots[j]).key
}

/// Each entry of `slots` has its body's length as its size, is no more
/// than a tenth of `max_size`, and has a time to live.
pub open spec fn entries_fit(slots: Seq<SlotModel>, max_size: usize) -> bool {
    forall|i: int|
        0 <= i < slots.len() ==> {
            let e = (#[trigger] slots[i]).entry;
            &&& e.size == e.body.len()
            &&& e.size <= max_size / 10
            &&& e.ttl.nanos > 0
        }
}

/// What a cache holds and counts.
pub struct CacheModel {
    /// The stored entries, oldest insertion first.
    pub slots: Seq<SlotModel>,
    pub stats: CacheStats,
    /// The byte budget.
    pub max_size: usize,
    /// The time to live of an entry stored without one of its own.
    pub default_ttl: Span,
    pub enabled: bool,
}

impl CacheModel {
    /// The counters agree with the entries, the entries are within the byte
    /// budget, each of them is at most a tenth of it and has a time to live,
    /// and no key occurs twice.
    pub open spec fn wf(self) -> bool {
        &&& self.max_size > 0
        &&& self.default_ttl.nanos > 0
        &&& distinct_keys(self.slots)
        &&& entries_fit(self.slots, self.max_size)
        &&& self.stats.current_size == total_size(self.slots)
        &&& self.stats.entry_count == self.slots.len()
        &&& self.stats.current_size <= self.max_size
    }

    /// The cache takes a body of `size` bytes: it is enabled, and the body
    /// is no more than a tenth of the budget.
    pub open spec fn accepts(self, size: nat) -> bool {
        self.enabled && size <= self.max_size / 10
    }

    /// The time to live of an entry stored with `custom_ttl`.
    pub open spec fn ttl_for(self, custom_ttl: Option<Span>) -> Span {
        match custom_ttl {
            Some(t) => t,
            None => self.default_ttl,
        }
    }

    /// A lookup of `key` at `now`: the cache afterwards, and what is served.
    ///
    /// A disabled cache serves nothing and counts nothing. A key that is
    /// absent is a miss. An entry past its time to live is removed and is a
    /// miss. Any other entry is a hit: it is served with its hit count
    /// raised by one.
    pub open spec fn get(self, key: Seq<char>, now: Span) -> (CacheModel, Option<EntryModel>) {
        let i = find_key(self.slots, key, 0);
        if !self.enabled {
            (self, None)
        } else if i >= self.slots.len() {
            (
                CacheModel {
                    stats: CacheStats { misses: bump(self.stats.misses, 1), ..self.stats },
                    ..self
                },
                None,
            )
        } else if self.slots[i].entry.is_expired(now) {
            let slots = self.slots.remove(i);
            (
                CacheModel {
                    slots,
                    stats: CacheStats {
                        misses: bump(self.stats.misses, 1),
                        current_size: total_size(slots) as usize,
                        entry_count: slots.len() as usize,
                        ..self.stats
                    },
                    ..self
                },
                None,
            )
        } else {
            let e = self.slots[i].entry;
            let served = EntryModel { hit_count: bump(e.hit_count, 1), ..e };
            (
                CacheModel {
                    slots: self.slots.update(i, SlotModel { key, entry: served }),
                    stats: CacheStats {
                        hits: bump(self.stats.hits, 1),
                        bytes_served: bump(self.stats.bytes_served, e.size as nat),
                        bytes_saved: bump(self.stats.bytes_saved, e.size as nat),
                        ..self.stats
                    },
                    ..self
                },
                Some(served),
            )
        }
    }

    /// The cache after `entry` has been offered under `key`.
    ///
    /// Where the cache does not take a body of that size, nothing changes.
    /// Otherwise room is made for its bytes, whatever its time to live. An
    /// entry with a time to live then takes the place of the one under the
    /// same key, or the last place where there is none. An entry without
    /// one is left out, and the one under the same key gives way to it all
    /// the same, so that the key has nothing to serve.
    pub open spec fn put(self, key: Seq<char>, entry: EntryModel) -> CacheModel {
        if !self.accepts(entry.size as nat) {
            self
        } else {
            let kept = make_room(self.slots, entry.size as nat, self.max_size as nat);
            let i = find_key(kept, key, 0);
            let slot = SlotModel { key, entry };
            let slots = if entry.ttl.nanos == 0 {
                if i < kept.len() {
                    kept.remove(i)
                } else {
                    kept
                }
            } else if i < kept.len() {
                kept.update(i, slot)
            } else {
                kept.push(slot)
            };
            CacheModel {
                slots,
                stats: CacheStats {
                    current_size: total_size(slots) as usize,
                    entry_count: slots.len() as usize,
                    evictions: bump(
                        self.stats.evictions,
                        (self.slots.len() - kept.len()) as nat,
                    ),
                    ..self.stats
                },
                ..self
            }
        }
    }

    /// The cache without the entries past their time to live at `now`.
    pub open spec fn cleanup(self, now: Span) -> CacheModel {
        let slots = live_slots(self.slots, now);
        CacheModel {
            slots,
            stats: CacheStats {
                current_size: total_size(slots) as usize,
                entry_count: slots.len() as usize,
                ..self.stats
            },
            ..self
        }
    }

    /// The cache without any entry. The counters of past lookups stay.
    pub open spec fn clear(self) -> CacheModel {
        CacheModel {
            slots: Seq::empty(),
            stats: CacheStats { current_size: 0, entry_count: 0, ..self.stats },
            ..self
        }
    }
}

/// The entry that `put` stores for a response received at `now`.
pub open spec fn fresh_entry(
    body: Seq<u8>,
    content_type: Seq<char>,
    status_code: u16,
    headers: Seq<(Seq<char>, Seq<char>)>,
    ttl: Span,
    now: Span,
) -> EntryModel {
    EntryModel {
        body,
        content_type,
        status_code,
        headers,
        created_at: now,
        ttl,
        hit_count: 0,
        size: body.len() as usize,
    }
}

/// The victim is one of the slots, no slot goes before it, and it goes
/// before every slot that stands earlier.
pub proof fn lemma_victim(slots: Seq<SlotModel>)
    requires
        slots.len() > 0,
    ensures
        0 <= victim(slots) < slots.len(),
        forall|j: int|
            0 <= j < slots.len() ==> !(#[trigger] slots[j]).entry.goes_before(
                slots[victim(slots)].entry,
            ),
        forall|j: int|
            0 <= j < victim(slots) ==> slots[victim(slots)].entry.goes_before(
                (#[trigger] slots[j]).entry,
            ),
    decreases slots.len(),
{
    if slots.len() > 1 {
        let head = slots.drop_last();
        lemma_victim(head);
        assert forall|j: int| 0 <= j < slots.len() implies !(#[trigger] slots[j]).entry.goes_before(
            slots[victim(slots)].entry,
        ) by {
            if j < head.len() {
                assert(slots[j] == head[j]);
            }
        }
        assert forall|j: int| 0 <= j < victim(slots) implies slots[victim(slots)].entry.goes_before(
            (#[trigger] slots[j]).entry,
        ) by {
            assert(slots[j] == head[j]);
        }
    }
}

/// A slot more adds its bytes.
pub proof fn lemma_total_size_push(slots: Seq<SlotModel>, slot: SlotModel)
    ensures
        total_size(slots.push(slot)) == total_size(slots) + slot.entry.size,
{
    assert(slots.push(slot).drop_last() =~= slots);
}

/// A slot less takes its bytes away.
pub proof fn lemma_total_size_remove(slots: Seq<SlotModel>, i: int)
    requires
        0 <= i < slots.len(),
    ensures
        total_size(slots.remove(i)) == total_size(slots) - slots[i].entry.size,
    decreases slots.len(),
{
    if i < slots.len() - 1 {
        lemma_total_size_remove(slots.drop_last(), i);
        assert(slots.remove(i).drop_last() =~= slots.drop_last().remove(i));
    }
}

/// A slot replaced changes the bytes by the difference.
pub proof fn lemma_total_size_update(slots: Seq<SlotModel>, i: int, slot: SlotModel)
    requires
        0 <= i < slots.len(),
    ensures
        total_size(slots.update(i, slot)) == total_size(slots) - slots[i].entry.size
            + slot.entry.size,
    decreases slots.len(),
{
    if i == slots.len() - 1 {
        assert(slots.update(i, slot).drop_last() =~= slots.drop_last());
    } else {
        lemma_total_size_update(slots.drop_last(), i, slot);
        assert(slots.update(i, slot).drop_last() =~= slots.drop_last().update(i, slot));
    }
}

/// `find_key` gives the first slot with the key at or after `from`, and
/// `slots.len()` exactly where there is none.
pub proof fn lemma_find_key(slots: Seq<SlotModel>, key: Seq<char>, from: int)
    requires
        0 <= from <= slots.len(),
    ensures
        from <= find_key(slots, key, from) <= slots.len(),
        find_key(slots, key, from) < slots.len() ==> slots[find_key(slots, key, from)].key == key,
        forall|j: int| from <= j < find_key(slots, key, from) ==> (#[trigger] slots[j]).key != key,
    decreases slots.len() - from,
{
    if from < slots.len() && slots[from].key != key {
        lemma_find_key(slots, key, from + 1);
    }
}

/// Taking a slot away keeps the keys distinct and the entries fitting.
pub proof fn lemma_remove_keeps(slots: Seq<SlotModel>, i: int, max_size: usize)
    requires
        0 <= i < slots.len(),
    ensures
        distinct_keys(slots) ==> distinct_keys(slots.remove(i)),
        entries_fit(slots, max_size) ==> entries_fit(slots.remove(i), max_size),
{
    let r = slots.remove(i);
    assert forall|j: int| 0 <= j < r.len() implies #[trigger] r[j] == slots[if j < i {
        j
    } else {
        j + 1
    }] by {}
}

/// Making room keeps the keys distinct and the entries fitting, takes
/// slots away only, and ends with the bytes fitting or with nothing left.
pub proof fn lemma_make_room(slots: Seq<SlotModel>, needed: nat, max: nat, max_size: usize)
    ensures
        distinct_keys(slots) ==> distinct_keys(make_room(slots, needed, max)),
        entries_fit(slots, max_size) ==> entries_fit(make_room(slots, needed, max), max_size),
        make_room(slots, needed, max).len() <= slots.len(),
        total_size(make_room(slots, needed, max)) <= total_size(slots),
        total_size(make_room(slots, needed, max)) + needed <= max || make_room(
            slots,
            needed,
            max,
        ).len() == 0,
    decreases slots.len(),
{
    if total_size(slots) + needed > max && slots.len() > 0 {
        lemma_victim(slots);
        let v = victim(slots);
        lemma_make_room(slots.remove(v), needed, max, max_size);
    }
}

/// A lookup leaves the counters in agreement with the entries and the
/// entries within the budget.
pub proof fn lemma_get_keeps_wf(m: CacheModel, key: Seq<char>, now: Span)
    requires
        m.wf(),
    ensures
        m.get(key, now).0.wf(),
{
    let i = find_key(m.slots, key, 0);
    lemma_find_key(m.slots, key, 0);
    if m.enabled && i < m.slots.len() {
        if m.slots[i].entry.is_expired(now) {
            lemma_total_size_remove(m.slots, i);
        } else {
            let e = m.slots[i].entry;
            let served = EntryModel { hit_count: bump(e.hit_count, 1), ..e };
            let slot = SlotModel { key, entry: served };
            lemma_total_size_update(m.slots, i, slot);
            assert(entries_fit(m.slots.update(i, slot), m.max_size));
        }
    }
}

/// Whatever is offered, the counters agree with the entries afterwards, and
/// the stored bytes stay within the budget.
pub proof fn lemma_put_keeps_wf(m: CacheModel, key: Seq<char>, entry: EntryModel)
    requires
        m.wf(),
        entry.size == entry.body.len(),
        m.put(key, entry).slots.len() <= usize::MAX,
    ensures
        m.put(key, entry).wf(),
        m.put(key, entry).stats.current_size <= m.max_size,
{
    if m.accepts(entry.size as nat) {
        let kept = make_room(m.slots, entry.size as nat, m.max_size as nat);
        lemma_make_room(m.slots, entry.size as nat, m.max_size as nat, m.max_size);
        let i = find_key(kept, key, 0);
        lemma_find_key(kept, key, 0);
        let slot = SlotModel { key, entry };
        if entry.ttl.nanos == 0 {
            if i < kept.len() {
                lemma_total_size_remove(kept, i);
                lemma_remove_keeps(kept, i, m.max_size);
            }
        } else if i < kept.len() {
            lemma_total_size_update(kept, i, slot);
            assert(entries_fit(kept.update(i, slot), m.max_size));
        } else {
            lemma_total_size_push(kept, slot);
            assert(entries_fit(kept.push(slot), m.max_size));
        }
    }
}

/// Room is made for every body that the cache takes, whatever its time to
/// live: as many entries are evicted as making room takes away, none where
/// the body fits beside what is stored, and the entries that are kept are
/// those that making room leaves, but for the one under the same key.
pub proof fn lemma_put_makes_room(m: CacheModel, key: Seq<char>, entry: EntryModel)
    requires
        m.accepts(entry.size as nat),
    ensures
        ({
            let kept = make_room(m.slots, entry.size as nat, m.max_size as nat);
            let after = m.put(key, entry);
            &&& after.stats.evictions == bump(
                m.stats.evictions,
                (m.slots.len() - kept.len()) as nat,
            )
            &&& total_size(m.slots) + entry.size <= m.max_size ==> kept == m.slots
            &&& forall|k: Seq<char>|
                k != key ==> (find_key(after.slots, k, 0) < after.slots.len()) == (find_key(
                    kept,
                    k,
                    0,
                ) < kept.len())
        }),
{
    let kept = make_room(m.slots, entry.size as nat, m.max_size as nat);
    let after = m.put(key, entry).slots;
    let i = find_key(kept, key, 0);
    lemma_find_key(kept, key, 0);
    lemma_make_room(m.slots, entry.size as nat, m.max_size as nat, m.max_size);
    assert forall|k: Seq<char>| k != key implies (find_key(after, k, 0) < after.len()) == (
    find_key(kept, k, 0) < kept.len()) by {
        lemma_find_key(kept, k, 0);
        lemma_find_key(after, k, 0);
        let a = find_key(kept, k, 0);
        let b = find_key(after, k, 0);
        if a < kept.len() {
            // The slot with `k` is still there, one place earlier where the
            // slot before it has left.
            let a2 = if entry.ttl.nanos == 0 && i < a {
                a - 1
            } else {
                a
            };
            assert(after[a2].key == k);
            if b >= after.len() {
                assert(after[a2].key != k);
            }
        }
        if b < after.len() {
            let b2 = if entry.ttl.nanos == 0 && i <= b {
                b + 1
            } else {
                b
            };
            if b2 < kept.len() {
                assert(kept[b2].key == k);
                if a >= kept.len() {
                    assert(kept[b2].key != k);
                }
            }
        }
    }
}

/// An entry larger than a tenth of the budget is not stored: the cache
/// stays as it was.
pub proof fn lemma_put_rejects_large(m: CacheModel, key: Seq<char>, entry: EntryModel)
    requires
        entry.size > m.max_size / 10,
    ensures
        m.put(key, entry) == m,
{
}

/// What a lookup serves is within its time to live.
pub proof fn lemma_served_entry_is_live(m: CacheModel, key: Seq<char>, now: Span)
    ensures
        m.get(key, now).1 matches Some(e) ==> !e.is_expired(now),
        m.get(key, now).1 is Some ==> find_key(m.slots, key, 0) < m.slots.len(),
{
}

/// Removing the entries past their time to live keeps what the cache
/// promises, leaves only entries within theirs, and takes none of those
/// away.
pub proof fn lemma_live_slots(slots: Seq<SlotModel>, now: Span, max_size: usize)
    ensures
        distinct_keys(slots) ==> distinct_keys(live_slots(slots, now)),
        entries_fit(slots, max_size) ==> entries_fit(live_slots(slots, now), max_size),
        live_slots(slots, now).len() <= slots.len(),
        total_size(live_slots(slots, now)) <= total_size(slots),
        forall|i: int|
            0 <= i < live_slots(slots, now).len() ==> {
                &&& !(#[trigger] live_slots(slots, now)[i]).entry.is_expired(now)
                &&& slots.contains(live_slots(slots, now)[i])
            },
        forall|i: int|
            0 <= i < slots.len() && !(#[trigger] slots[i]).entry.is_expired(now)
                ==> live_slots(slots, now).contains(slots[i]),
    decreases slots.len(),
{
    reveal(Seq::filter);
    let pred = |s: SlotModel| !s.entry.is_expired(now);
    let live = live_slots(slots, now);
    if slots.len() > 0 {
        let head = slots.drop_last();
        let sub = live_slots(head, now);
        lemma_live_slots(head, now, max_size);
        if pred(slots.last()) {
            lemma_total_size_push(sub, slots.last());
            assert(forall|i: int| 0 <= i < live.len() ==> slots.contains(#[trigger] live[i]));
            assert(entries_fit(slots, max_size) ==> entries_fit(live, max_size));
        }
    }
}

/// A sweep leaves the counters in agreement with the entries, and every
/// entry that is left is within its time to live.
pub proof fn lemma_cleanup_keeps_wf(m: CacheModel, now: Span)
    requires
        m.wf(),
    ensures
        m.cleanup(now).wf(),
        forall|i: int|
            0 <= i < m.cleanup(now).slots.len() ==> !(#[trigger] m.cleanup(
                now,
            ).slots[i]).entry.is_expired(now),
{
    lemma_live_slots(m.slots, now, m.max_size);
}

/// A sweep of a cache without entries changes nothing.
pub proof fn lemma_cleanup_of_empty(m: CacheModel, now: Span)
    requires
        m.wf(),
        m.slots.len() == 0,
    ensures
        m.cleanup(now) == m,
{
    assert(live_slots(m.slots, now) =~= m.slots);
}

/// Emptying the cache leaves the counters in agreement with the entries.
pub proof fn lemma_clear_keeps_wf(m: CacheModel)
    requires
        m.wf(),
    ensures
        m.clear().wf(),
{
}

/// Where no slot from `from` up to `at` has the key and the slot at `at`
/// has it, `at` is where the key is found.
pub proof fn lemma_find_key_is(slots: Seq<SlotModel>, key: Seq<char>, from: int, at: int)
    requires
        0 <= from <= at < slots.len(),
        forall|j: int| from <= j < at ==> (#[trigger] slots[j]).key != key,
        slots[at].key == key,
    ensures
        find_key(slots, key, from) == at,
    decreases at - from,
{
    if from < at {
        lemma_find_key_is(slots, key, from + 1, at);
    }
}

/// Where no slot from `from` on has the key, the key is not found.
pub proof fn lemma_find_key_fails(slots: Seq<SlotModel>, key: Seq<char>, from: int)
    requires
        0 <= from <= slots.len(),
        forall|j: int| from <= j < slots.len() ==> (#[trigger] slots[j]).key != key,
    ensures
        find_key(slots, key, from) == slots.len(),
    decreases slots.len() - from,
{
    if from < slots.len() {
        lemma_find_key_fails(slots, key, from + 1);
    }
}

/// A lookup of a key whose entry is past its time to live serves nothing
/// and takes the entry away: the key is gone, the stored bytes fall by the
/// entry's size and the entries by one, and the lookup is a miss and
/// nothing else.
pub proof fn lemma_expired_entry_is_a_miss(m: CacheModel, key: Seq<char>, now: Span)
    requires
        m.wf(),
        m.enabled,
        find_key(m.slots, key, 0) < m.slots.len(),
        m.slots[find_key(m.slots, key, 0)].entry.is_expired(now),
    ensures
        ({
            let gone = m.slots[find_key(m.slots, key, 0)].entry;
            let after = m.get(key, now).0;
            &&& m.get(key, now).1 is None
            &&& find_key(after.slots, key, 0) == after.slots.len()
            &&& after.stats.current_size == m.stats.current_size - gone.size
            &&& after.stats.entry_count == m.stats.entry_count - 1
            &&& after.stats.misses == bump(m.stats.misses, 1)
            &&& after.stats.hits == m.stats.hits
            &&& after.stats.bytes_served == m.stats.bytes_served
            &&& after.stats.bytes_saved == m.stats.bytes_saved
            &&& after.stats.evictions == m.stats.evictions
        }),
{
    let i = find_key(m.slots, key, 0);
    lemma_find_key(m.slots, key, 0);
    lemma_total_size_remove(m.slots, i);
    let rest = m.slots.remove(i);
    assert forall|j: int| 0 <= j < rest.len() implies (#[trigger] rest[j]).key != key by {
        assert(rest[j] == m.slots[if j < i { j } else { j + 1 }]);
    }
    lemma_find_key_fails(rest, key, 0);
}

/// What was stored under a key is served for it as long as it is within
/// its time to live: a lookup then serves that entry, with its hit count
/// raised by one, and counts one hit more and no miss.
pub proof fn lemma_stored_entry_is_served(
    m: CacheModel,
    key: Seq<char>,
    entry: EntryModel,
    now: Span,
)
    requires
        m.wf(),
        m.accepts(entry.size as nat),
        entry.ttl.nanos > 0,
        !entry.is_expired(now),
    ensures
        ({
            let stored = m.put(key, entry);
            let served = EntryModel { hit_count: bump(entry.hit_count, 1), ..entry };
            &&& stored.get(key, now).1 == Some(served)
            &&& stored.get(key, now).0.stats.hits == bump(stored.stats.hits, 1)
            &&& stored.get(key, now).0.stats.misses == stored.stats.misses
        }),
{
    let kept = make_room(m.slots, entry.size as nat, m.max_size as nat);
    let i = find_key(kept, key, 0);
    lemma_find_key(kept, key, 0);
    let slot = SlotModel { key, entry };
    let slots = m.put(key, entry).slots;
    if i < kept.len() {
        assert forall|j: int| 0 <= j < i implies (#[trigger] slots[j]).key != key by {
            assert(slots[j] == kept[j]);
        }
        lemma_find_key_is(slots, key, 0, i);
    } else {
        assert forall|j: int| 0 <= j < kept.len() implies (#[trigger] slots[j]).key != key by {
            assert(slots[j] == kept[j]);
        }
        lemma_find_key_is(slots, key, 0, kept.len() as int);
    }
}

impl CacheStats {
    /// No counter of lookups, bytes or evictions is lower in `later` than in
    /// `self`.
    pub open spec fn no_higher_than(self, later: CacheStats) -> bool {
        &&& self.hits <= later.hits
        &&& self.misses <= later.misses
        &&& self.bytes_served <= later.bytes_served
        &&& self.bytes_saved <= later.bytes_saved
        &&& self.evictions <= later.evictions
    }
}

/// The counters of lookups, bytes and evictions only grow, whatever is done
/// with the cache.
pub proof fn lemma_counters_only_grow(m: CacheModel, key: Seq<char>, entry: EntryModel, now: Span)
    ensures
        m.stats.no_higher_than(m.get(key, now).0.stats),
        m.stats.no_higher_than(m.put(key, entry).stats),
        m.stats.no_higher_than(m.cleanup(now).stats),
        m.stats.no_higher_than(m.clear().stats),
{
}

} // verus!
