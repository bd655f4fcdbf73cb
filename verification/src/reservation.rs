use vstd::prelude::*;
use crate::constants::GRID_N;

verus! {

/// A reservation key: tile column, tile row and time-slot index.
pub type TileKey = (u8, u8, u32);

/// One reservation: the key and the id of the vehicle holding it.
pub type Entry = (TileKey, u32);

/// The intersection manager's reservation table: which vehicle holds each
/// (tile, time slot). A key is held by at most one vehicle.
pub struct ReservationTable {
    entries: Vec<Entry>,
}

/// No key occurs twice among the entries.
pub open spec fn keys_distinct(s: Seq<Entry>) -> bool {
    forall|i: int, j: int| 0 <= i < s.len() && 0 <= j < s.len() && i != j ==> s[i].0 != s[j].0
}

/// Some entry has key `k`.
pub open spec fn has_key(s: Seq<Entry>, k: TileKey) -> bool {
    exists|i: int| 0 <= i < s.len() && s[i].0 == k
}

/// The map that a list of entries with distinct keys stands for.
pub open spec fn entries_map(s: Seq<Entry>) -> Map<TileKey, u32> {
    Map::new(
        |k: TileKey| has_key(s, k),
        |k: TileKey| s[choose|i: int| 0 <= i < s.len() && s[i].0 == k].1,
    )
}

/// With distinct keys, the map gives the vehicle of the entry that holds the key.
pub proof fn lemma_entries_map_at(s: Seq<Entry>, i: int)
    requires
        keys_distinct(s),
        0 <= i < s.len(),
    ensures
        entries_map(s).contains_key(s[i].0),
        entries_map(s)[s[i].0] == s[i].1,
{
    let k = s[i].0;
    assert(has_key(s, k));
    let j = choose|j: int| 0 <= j < s.len() && s[j].0 == k;
    assert(j == i);
}

impl ReservationTable {
    #[verifier::type_invariant]
    spec fn inv(self) -> bool {
        keys_distinct(self.entries@)
    }

    /// The reservations as a map from key to vehicle id.
    pub closed spec fn view(&self) -> Map<TileKey, u32> {
        entries_map(self.entries@)
    }

    /// An empty table.
    pub fn new() -> (t: Self)
        ensures
            t@ == Map::<TileKey, u32>::empty(),
    {
        let t = ReservationTable { entries: Vec::new() };
        assert(t@ =~= Map::<TileKey, u32>::empty());
        t
    }

    /// Position of the entry with key `k`, if any.
    fn find(&self, k: TileKey) -> (r: Option<usize>)
        ensures
            match r {
                Some(i) => i < self.entries@.len() && self.entries@[i as int].0 == k,
                None => !self@.contains_key(k),
            },
    {
        let mut i: usize = 0;
        while i < self.entries.len()
            invariant
                i <= self.entries@.len(),
                forall|j: int| 0 <= j < i ==> self.entries@[j].0 != k,
            decreases self.entries@.len() - i,
        {
            let e = self.entries[i].0;
            if e.0 == k.0 && e.1 == k.1 && e.2 == k.2 {
                return Some(i);
            }
            i = i + 1;
        }
        None
    }

    /// The vehicle holding key `k`, if any.
    pub fn owner(&self, k: TileKey) -> (r: Option<u32>)
        ensures
            r == (if self@.contains_key(k) { Some(self@[k]) } else { None::<u32> }),
    {
        proof { use_type_invariant(self); }
        match self.find(k) {
            Some(i) => {
                proof { lemma_entries_map_at(self.entries@, i as int); }
                Some(self.entries[i].1)
            },
            None => None,
        }
    }

    /// Number of reserved keys.
    pub fn len(&self) -> (n: usize)
        ensures
            n == self@.len(),
    {
        proof {
            use_type_invariant(self);
            lemma_entries_map_len(self.entries@);
        }
        self.entries.len()
    }
}

/// With distinct keys, the map has one key per entry.
pub proof fn lemma_entries_map_len(s: Seq<Entry>)
    requires
        keys_distinct(s),
    ensures
        entries_map(s).dom().finite(),
        entries_map(s).len() == s.len(),
    decreases s.len(),
{
    if s.len() == 0 {
        assert(entries_map(s).dom() =~= Set::<TileKey>::empty());
    } else {
        let t = s.drop_last();
        assert(keys_distinct(t));
        lemma_entries_map_len(t);
        let k = s.last().0;
        assert(entries_map(s).dom() =~= entries_map(t).dom().insert(k)) by {
            assert forall|x: TileKey| entries_map(s).dom().contains(x) implies entries_map(t).dom().insert(k).contains(x) by {
                let i = choose|i: int| 0 <= i < s.len() && s[i].0 == x;
                if i < t.len() {
                    assert(t[i].0 == x);
                }
            }
            assert forall|x: TileKey| entries_map(t).dom().insert(k).contains(x) implies entries_map(s).dom().contains(x) by {
                if x != k {
                    let i = choose|i: int| 0 <= i < t.len() && t[i].0 == x;
                    assert(s[i].0 == x);
                } else {
                    assert(s[s.len() - 1].0 == x);
                }
            }
        }
        assert(!entries_map(t).dom().contains(k)) by {
            if entries_map(t).dom().contains(k) {
                let i = choose|i: int| 0 <= i < t.len() && t[i].0 == k;
                assert(s[i].0 == s[s.len() - 1].0);
            }
        }
    }
}

// ── Requests ──────────────────────────────────────────────────────────────────

/// Key `k` is free for vehicle `id`: nobody holds it, or `id` itself does.
pub open spec fn slot_free(m: Map<TileKey, u32>, k: TileKey, id: u32) -> bool {
    !m.contains_key(k) || m[k] == id
}

/// Every key in `slots` is free for vehicle `id`.
pub open spec fn grantable(m: Map<TileKey, u32>, slots: Seq<TileKey>, id: u32) -> bool {
    forall|i: int| 0 <= i < slots.len() ==> slot_free(m, #[trigger] slots[i], id)
}

/// The table after vehicle `id` has been given every key in `slots`.
pub open spec fn grant(m: Map<TileKey, u32>, slots: Seq<TileKey>, id: u32) -> Map<TileKey, u32> {
    Map::new(
        |k: TileKey| m.contains_key(k) || slots.contains(k),
        |k: TileKey| if slots.contains(k) { id } else { m[k] },
    )
}

/// Granting one more key is inserting it.
proof fn lemma_grant_push(m: Map<TileKey, u32>, slots: Seq<TileKey>, k: TileKey, id: u32)
    ensures
        grant(m, slots.push(k), id) =~= grant(m, slots, id).insert(k, id),
{
    assert forall|x: TileKey| #[trigger] slots.push(k).contains(x) <==> (slots.contains(x) || x == k) by {
        if slots.push(k).contains(x) {
            let i = choose|i: int| 0 <= i < slots.push(k).len() && slots.push(k)[i] == x;
            if i < slots.len() {
                assert(slots[i] == x);
            }
        }
        if slots.contains(x) {
            let i = choose|i: int| 0 <= i < slots.len() && slots[i] == x;
            assert(slots.push(k)[i] == x);
        }
        if x == k {
            assert(slots.push(k)[slots.len() as int] == x);
        }
    }
}

impl ReservationTable {
    /// Gives key `k` to vehicle `id`, whoever held it before.
    fn put(&mut self, k: TileKey, id: u32)
        ensures
            final(self)@ == old(self)@.insert(k, id),
    {
        proof { use_type_invariant(&*self); }
        let ghost old_entries = self.entries@;
        let found = self.find(k);
        let mut entries: Vec<Entry> = Vec::new();
        std::mem::swap(&mut entries, &mut self.entries);
        match found {
            Some(i) => {
                entries.set(i, (k, id));
                proof {
                    let new_entries = entries@;
                    assert(new_entries =~= old_entries.update(i as int, (k, id)));
                    lemma_entries_map_at(new_entries, i as int);
                    assert forall|x: TileKey| #[trigger] has_key(new_entries, x) <==> has_key(old_entries, x) by {
                        if has_key(new_entries, x) {
                            let j = choose|j: int| 0 <= j < new_entries.len() && new_entries[j].0 == x;
                            assert(old_entries[j].0 == x);
                        }
                        if has_key(old_entries, x) {
                            let j = choose|j: int| 0 <= j < old_entries.len() && old_entries[j].0 == x;
                            assert(new_entries[j].0 == x);
                        }
                    }
                    assert forall|x: TileKey| #[trigger] has_key(new_entries, x) && x != k implies
                        entries_map(new_entries)[x] == entries_map(old_entries)[x] by {
                        let j = choose|j: int| 0 <= j < new_entries.len() && new_entries[j].0 == x;
                        lemma_entries_map_at(new_entries, j);
                        lemma_entries_map_at(old_entries, j);
                    }
                    assert(entries_map(new_entries) =~= entries_map(old_entries).insert(k, id));
                }
            },
            None => {
                entries.push((k, id));
                proof {
                    let new_entries = entries@;
                    assert(new_entries =~= old_entries.push((k, id)));
                    let n = old_entries.len() as int;
                    lemma_entries_map_at(new_entries, n);
                    assert forall|x: TileKey| #[trigger] has_key(new_entries, x) <==> (has_key(old_entries, x) || x == k) by {
                        if has_key(new_entries, x) {
                            let j = choose|j: int| 0 <= j < new_entries.len() && new_entries[j].0 == x;
                            if j < n {
                                assert(old_entries[j].0 == x);
                            }
                        }
                        if has_key(old_entries, x) {
                            let j = choose|j: int| 0 <= j < old_entries.len() && old_entries[j].0 == x;
                            assert(new_entries[j].0 == x);
                        }
                    }
                    assert forall|x: TileKey| #[trigger] has_key(new_entries, x) && x != k implies
                        entries_map(new_entries)[x] == entries_map(old_entries)[x] by {
                        let j = choose|j: int| 0 <= j < new_entries.len() && new_entries[j].0 == x;
                        lemma_entries_map_at(new_entries, j);
                        lemma_entries_map_at(old_entries, j);
                    }
                    assert(entries_map(new_entries) =~= entries_map(old_entries).insert(k, id));
                }
            },
        }
        self.entries = entries;
    }

    /// Tries to reserve every key in `slots` for vehicle `vehicle_id`.
    /// Returns true on success (and commits the reservation), false on
    /// conflict: when some key is held by another vehicle, in which case the
    /// table is left as it was.
    pub fn request(&mut self, vehicle_id: u32, slots: &Vec<TileKey>) -> (granted: bool)
        ensures
            granted == grantable(old(self)@, slots@, vehicle_id),
            final(self)@ == (if granted { grant(old(self)@, slots@, vehicle_id) } else { old(self)@ }),
    {
        // Check every slot is free
        let mut i: usize = 0;
        while i < slots.len()
            invariant
                i <= slots@.len(),
                forall|j: int| 0 <= j < i ==> slot_free(self@, #[trigger] slots@[j], vehicle_id),
            decreases slots@.len() - i,
        {
            match self.owner(slots[i]) {
                Some(o) => {
                    if o != vehicle_id {
                        return false;
                    }
                },
                None => {},
            }
            i = i + 1;
        }
        // Commit
        let ghost before = self@;
        let mut i: usize = 0;
        while i < slots.len()
            invariant
                i <= slots@.len(),
                self@ == grant(before, slots@.take(i as int), vehicle_id),
            decreases slots@.len() - i,
        {
            proof {
                lemma_grant_push(before, slots@.take(i as int), slots@[i as int], vehicle_id);
                assert(slots@.take(i as int).push(slots@[i as int]) =~= slots@.take(i + 1));
            }
            self.put(slots[i], vehicle_id);
            i = i + 1;
        }
        proof {
            assert(slots@.take(slots@.len() as int) =~= slots@);
        }
        true
    }
}

// ── Release and clean-up ──────────────────────────────────────────────────────

/// Which entries a pass over the table keeps.
enum Keep {
    /// Entries not held by this vehicle.
    NotHeldBy(u32),
    /// Entries whose time slot is this one or a later one.
    NotStaleAt(u32),
}

/// Entry `e` survives a pass with `rule`.
spec fn keeps(rule: Keep, e: Entry) -> bool {
    match rule {
        Keep::NotHeldBy(id) => e.1 != id,
        Keep::NotStaleAt(now) => (e.0).2 >= now,
    }
}

/// Entry `e` survives a pass with `rule`.
fn keeps_exec(rule: &Keep, e: &Entry) -> (b: bool)
    ensures
        b == keeps(*rule, *e),
{
    match rule {
        Keep::NotHeldBy(id) => e.1 != *id,
        Keep::NotStaleAt(now) => (e.0).2 >= *now,
    }
}

/// The reservations held by vehicles other than `id`.
pub open spec fn without_vehicle(m: Map<TileKey, u32>, id: u32) -> Map<TileKey, u32> {
    Map::new(|k: TileKey| m.contains_key(k) && m[k] != id, |k: TileKey| m[k])
}

/// The reservations whose time slot has not passed: it is `now_slot` or later.
pub open spec fn not_stale(m: Map<TileKey, u32>, now_slot: u32) -> Map<TileKey, u32> {
    Map::new(|k: TileKey| m.contains_key(k) && k.2 >= now_slot, |k: TileKey| m[k])
}

impl ReservationTable {
    /// Keeps the entries that `rule` keeps.
    fn retain_entries(&mut self, rule: Keep)
        ensures
            final(self)@ == Map::new(
                |k: TileKey| old(self)@.contains_key(k) && keeps(rule, (k, old(self)@[k])),
                |k: TileKey| old(self)@[k],
            ),
    {
        proof { use_type_invariant(&*self); }
        let ghost old_entries = self.entries@;
        let mut kept: Vec<Entry> = Vec::new();
        let ghost mut idx: Seq<int> = Seq::empty();
        let mut i: usize = 0;
        while i < self.entries.len()
            invariant
                old_entries == self.entries@,
                keys_distinct(old_entries),
                i <= old_entries.len(),
                idx.len() == kept@.len(),
                forall|a: int| 0 <= a < idx.len() ==> 0 <= #[trigger] idx[a] < i,
                forall|a: int, b: int| 0 <= a < b < idx.len() ==> idx[a] < idx[b],
                forall|a: int| 0 <= a < idx.len() ==> kept@[a] == old_entries[#[trigger] idx[a]],
                forall|a: int| 0 <= a < idx.len() ==> keeps(rule, old_entries[#[trigger] idx[a]]),
                forall|j: int| 0 <= j < i && keeps(rule, #[trigger] old_entries[j]) ==>
                    exists|a: int| 0 <= a < idx.len() && idx[a] == j,
            decreases old_entries.len() - i,
        {
            let e = self.entries[i];
            let ghost prev_idx = idx;
            if keeps_exec(&rule, &e) {
                kept.push(e);
                proof {
                    idx = idx.push(i as int);
                    assert(idx[idx.len() - 1] == i as int);
                }
            }
            proof {
                assert forall|j: int| 0 <= j < i + 1 && keeps(rule, #[trigger] old_entries[j]) implies
                    exists|a: int| 0 <= a < idx.len() && idx[a] == j by {
                    if j == i {
                        assert(idx[idx.len() - 1] == j);
                    } else {
                        let a = choose|a: int| 0 <= a < prev_idx.len() && prev_idx[a] == j;
                        assert(idx[a] == prev_idx[a]);
                    }
                }
            }
            i = i + 1;
        }
        proof {
            let s = kept@;
            assert(keys_distinct(s)) by {
                assert forall|a: int, b: int| 0 <= a < s.len() && 0 <= b < s.len() && a != b implies s[a].0 != s[b].0 by {
                    if a < b {
                        assert(idx[a] < idx[b]);
                    } else {
                        assert(idx[b] < idx[a]);
                    }
                    assert(s[a] == old_entries[idx[a]]);
                    assert(s[b] == old_entries[idx[b]]);
                }
            }
            let target = Map::new(
                |k: TileKey| entries_map(old_entries).contains_key(k) && keeps(rule, (k, entries_map(old_entries)[k])),
                |k: TileKey| entries_map(old_entries)[k],
            );
            assert forall|k: TileKey| #[trigger] has_key(s, k) implies target.contains_key(k) && entries_map(s)[k] == target[k] by {
                let a = choose|a: int| 0 <= a < s.len() && s[a].0 == k;
                let j = idx[a];
                assert(s[a] == old_entries[j]);
                lemma_entries_map_at(old_entries, j);
                lemma_entries_map_at(s, a);
            }
            assert forall|k: TileKey| target.contains_key(k) implies #[trigger] has_key(s, k) by {
                let j = choose|j: int| 0 <= j < old_entries.len() && old_entries[j].0 == k;
                lemma_entries_map_at(old_entries, j);
                assert(old_entries[j] == (k, entries_map(old_entries)[k]));
                assert(keeps(rule, old_entries[j]));
                let a = choose|a: int| 0 <= a < idx.len() && idx[a] == j;
                assert(s[a] == old_entries[j]);
            }
            assert(entries_map(s) =~= target);
        }
        self.entries = kept;
    }

    /// Releases all reservations held by `vehicle_id`.
    pub fn release(&mut self, vehicle_id: u32)
        ensures
            final(self)@ == without_vehicle(old(self)@, vehicle_id),
    {
        self.retain_entries(Keep::NotHeldBy(vehicle_id));
        proof {
            assert(self@ =~= without_vehicle(old(self)@, vehicle_id));
        }
    }

    /// Removes time slots that have already passed: keeps a reservation
    /// exactly when its slot is `current_slot` or a later one.
    pub fn cleanup(&mut self, current_slot: u32)
        ensures
            final(self)@ == not_stale(old(self)@, current_slot),
            forall|k: TileKey| #[trigger] final(self)@.contains_key(k) <==>
                (old(self)@.contains_key(k) && k.2 >= current_slot),
            forall|k: TileKey| #[trigger] final(self)@.contains_key(k) ==> final(self)@[k] == old(self)@[k],
    {
        self.retain_entries(Keep::NotStaleAt(current_slot));
        proof {
            assert(self@ =~= not_stale(old(self)@, current_slot));
        }
    }
}

// ── Queries ───────────────────────────────────────────────────────────────────

/// Slot `ts` is within two slots of `now_slot`.
pub open spec fn near_slot(ts: u32, now_slot: u32) -> bool {
    ts - now_slot <= 2 && now_slot - ts <= 2
}

impl ReservationTable {
    /// The reserved keys whose time slot is within two slots of `now_slot`
    /// (the tiles a debug view highlights), each once.
    pub fn reserved_near(&self, now_slot: u32) -> (keys: Vec<TileKey>)
        ensures
            keys@.no_duplicates(),
            forall|k: TileKey| keys@.contains(k) <==> (self@.contains_key(k) && near_slot(k.2, now_slot)),
    {
        proof { use_type_invariant(self); }
        let ghost es = self.entries@;
        let mut keys: Vec<TileKey> = Vec::new();
        let ghost mut idx: Seq<int> = Seq::empty();
        let mut i: usize = 0;
        while i < self.entries.len()
            invariant
                es == self.entries@,
                keys_distinct(es),
                i <= es.len(),
                idx.len() == keys@.len(),
                forall|a: int| 0 <= a < idx.len() ==> 0 <= #[trigger] idx[a] < i,
                forall|a: int, b: int| 0 <= a < b < idx.len() ==> idx[a] < idx[b],
                forall|a: int| 0 <= a < idx.len() ==> keys@[a] == es[#[trigger] idx[a]].0,
                forall|a: int| 0 <= a < idx.len() ==> near_slot(es[#[trigger] idx[a]].0.2, now_slot),
                forall|j: int| 0 <= j < i && near_slot(#[trigger] es[j].0.2, now_slot) ==>
                    exists|a: int| 0 <= a < idx.len() && idx[a] == j,
            decreases es.len() - i,
        {
            let k = self.entries[i].0;
            let ghost prev_idx = idx;
            let close = if k.2 >= now_slot { k.2 - now_slot <= 2 } else { now_slot - k.2 <= 2 };
            if close {
                keys.push(k);
                proof {
                    idx = idx.push(i as int);
                    assert(idx[idx.len() - 1] == i as int);
                }
            }
            proof {
                assert forall|j: int| 0 <= j < i + 1 && near_slot(#[trigger] es[j].0.2, now_slot) implies
                    exists|a: int| 0 <= a < idx.len() && idx[a] == j by {
                    if j == i {
                        assert(idx[idx.len() - 1] == j);
                    } else {
                        let a = choose|a: int| 0 <= a < prev_idx.len() && prev_idx[a] == j;
                        assert(idx[a] == prev_idx[a]);
                    }
                }
            }
            i = i + 1;
        }
        proof {
            let s = keys@;
            assert forall|a: int, b: int| 0 <= a < s.len() && 0 <= b < s.len() && a != b implies s[a] != s[b] by {
                if a < b {
                    assert(idx[a] < idx[b]);
                } else {
                    assert(idx[b] < idx[a]);
                }
            }
            assert forall|k: TileKey| s.contains(k) <==> (self@.contains_key(k) && near_slot(k.2, now_slot)) by {
                if s.contains(k) {
                    let a = choose|a: int| 0 <= a < s.len() && s[a] == k;
                    lemma_entries_map_at(es, idx[a]);
                }
                if self@.contains_key(k) && near_slot(k.2, now_slot) {
                    let j = choose|j: int| 0 <= j < es.len() && es[j].0 == k;
                    assert(near_slot(es[j].0.2, now_slot));
                    let a = choose|a: int| 0 <= a < idx.len() && idx[a] == j;
                    assert(s[a] == k);
                }
            }
        }
        keys
    }

    /// Every reserved time slot is at most `bound`.
    pub fn slots_at_most(&self, bound: u32) -> (b: bool)
        ensures
            b == (forall|k: TileKey| #[trigger] self@.contains_key(k) ==> k.2 <= bound),
    {
        proof { use_type_invariant(self); }
        let ghost es = self.entries@;
        let mut i: usize = 0;
        while i < self.entries.len()
            invariant
                es == self.entries@,
                keys_distinct(es),
                i <= es.len(),
                forall|j: int| 0 <= j < i ==> (#[trigger] es[j]).0.2 <= bound,
            decreases es.len() - i,
        {
            if (self.entries[i].0).2 > bound {
                proof {
                    lemma_entries_map_at(es, i as int);
                    let k = es[i as int].0;
                    assert(self@.contains_key(k) && !(k.2 <= bound));
                }
                return false;
            }
            i = i + 1;
        }
        proof {
            assert forall|k: TileKey| #[trigger] self@.contains_key(k) implies k.2 <= bound by {
                let j = choose|j: int| 0 <= j < es.len() && es[j].0 == k;
                assert(es[j].0.2 <= bound);
            }
        }
        true
    }
}

// ── Tiles crossed by a path ──────────────────────────────────────────────────

/// A point sampled on a vehicle's path inside the intersection box: the tile
/// column and row it falls in (which may lie off the grid) and the time slot
/// at which the vehicle is estimated to pass it.
pub type Sample = (i32, i32, u32);

/// The sample's tile lies on the grid.
pub open spec fn in_grid(s: Sample) -> bool {
    0 <= s.0 < GRID_N && 0 <= s.1 < GRID_N
}

/// The keys a sample asks for: its tile in its own slot and, as a timing
/// buffer, in the slot after; nothing for a tile off the grid.
pub open spec fn sample_keys(s: Sample) -> Seq<TileKey> {
    if in_grid(s) {
        seq![(s.0 as u8, s.1 as u8, s.2), (s.0 as u8, s.1 as u8, (s.2 + 1) as u32)]
    } else {
        Seq::empty()
    }
}

/// The keys asked for by each sample, in order.
pub open spec fn expand_samples(ss: Seq<Sample>) -> Seq<TileKey>
    decreases ss.len(),
{
    if ss.len() == 0 {
        Seq::empty()
    } else {
        expand_samples(ss.drop_last()) + sample_keys(ss.last())
    }
}

/// `s` with every element after its first occurrence removed.
pub open spec fn dedup(s: Seq<TileKey>) -> Seq<TileKey>
    decreases s.len(),
{
    if s.len() == 0 {
        Seq::empty()
    } else {
        let d = dedup(s.drop_last());
        if d.contains(s.last()) {
            d
        } else {
            d.push(s.last())
        }
    }
}

/// Keys `a` and `b` are equal.
fn key_eq(a: TileKey, b: TileKey) -> (r: bool)
    ensures
        r == (a == b),
{
    a.0 == b.0 && a.1 == b.1 && a.2 == b.2
}

/// Appends `k` unless `v` already holds it.
fn push_new(v: &mut Vec<TileKey>, k: TileKey)
    ensures
        final(v)@ == (if old(v)@.contains(k) { old(v)@ } else { old(v)@.push(k) }),
{
    let mut i: usize = 0;
    while i < v.len()
        invariant
            i <= v@.len(),
            forall|j: int| 0 <= j < i ==> v@[j] != k,
        decreases v@.len() - i,
    {
        if key_eq(v[i], k) {
            return;
        }
        i = i + 1;
    }
    v.push(k);
}

/// The reservation keys for a path sampled at `samples`: for each sample on
/// the grid, its tile in its time slot and in the next one, in order of the
/// samples, each key once.
pub fn slots_from_samples(samples: &Vec<Sample>) -> (slots: Vec<TileKey>)
    requires
        forall|i: int| 0 <= i < samples@.len() && in_grid(#[trigger] samples@[i]) ==> samples@[i].2 < u32::MAX,
    ensures
        slots@ == dedup(expand_samples(samples@)),
        slots@.no_duplicates(),
        forall|k: TileKey| #[trigger] slots@.contains(k) <==>
            exists|i: int| 0 <= i < samples@.len() && #[trigger] sample_keys(samples@[i]).contains(k),
        forall|i: int| 0 <= i < samples@.len() && in_grid(#[trigger] samples@[i]) ==> {
            let s = samples@[i];
            &&& slots@.contains((s.0 as u8, s.1 as u8, s.2))
            &&& slots@.contains((s.0 as u8, s.1 as u8, (s.2 + 1) as u32))
        },
        forall|j: int| 0 <= j < slots@.len() ==> key_has_source(#[trigger] slots@[j], samples@),
{
    let mut result: Vec<TileKey> = Vec::new();
    let mut i: usize = 0;
    while i < samples.len()
        invariant
            i <= samples@.len(),
            forall|j: int| 0 <= j < samples@.len() && in_grid(#[trigger] samples@[j]) ==> samples@[j].2 < u32::MAX,
            result@ == dedup(expand_samples(samples@.take(i as int))),
        decreases samples@.len() - i,
    {
        let (tx, ty, ts) = samples[i];
        let ghost before = expand_samples(samples@.take(i as int));
        let ghost prev = result@;
        proof {
            assert(samples@.take(i + 1).drop_last() =~= samples@.take(i as int));
            assert(samples@.take(i + 1).last() == samples@[i as int]);
            assert(expand_samples(samples@.take(i + 1)) == before + sample_keys(samples@[i as int]));
        }
        if tx >= 0 && ty >= 0 && tx < GRID_N as i32 && ty < GRID_N as i32 {
            let k0: TileKey = (tx as u8, ty as u8, ts);
            let k1: TileKey = (tx as u8, ty as u8, ts + 1);
            push_new(&mut result, k0);
            push_new(&mut result, k1);
            proof {
                assert(in_grid(samples@[i as int]));
                let x = before;
                assert(x.push(k0).drop_last() =~= x);
                assert(x.push(k0).push(k1).drop_last() =~= x.push(k0));
                assert(x + sample_keys(samples@[i as int]) =~= x.push(k0).push(k1));
                let d1 = if prev.contains(k0) { prev } else { prev.push(k0) };
                assert(dedup(x.push(k0)) == d1);
                assert(dedup(x.push(k0).push(k1)) == (if d1.contains(k1) { d1 } else { d1.push(k1) }));
            }
        } else {
            proof {
                assert(before + sample_keys(samples@[i as int]) =~= before);
            }
        }
        i = i + 1;
    }
    proof {
        assert(samples@.take(samples@.len() as int) =~= samples@);
        lemma_dedup(expand_samples(samples@));
        assert forall|i: int| 0 <= i < samples@.len() && in_grid(#[trigger] samples@[i]) implies {
            let s = samples@[i];
            &&& result@.contains((s.0 as u8, s.1 as u8, s.2))
            &&& result@.contains((s.0 as u8, s.1 as u8, (s.2 + 1) as u32))
        } by {
            let s = samples@[i];
            let k0 = (s.0 as u8, s.1 as u8, s.2);
            let k1 = (s.0 as u8, s.1 as u8, (s.2 + 1) as u32);
            assert(sample_keys(s)[0] == k0);
            assert(sample_keys(s)[1] == k1);
            assert(sample_keys(s).contains(k0));
            assert(sample_keys(s).contains(k1));
            lemma_expand_samples(samples@, k0);
            lemma_expand_samples(samples@, k1);
        }
        assert forall|j: int| 0 <= j < result@.len() implies key_has_source(#[trigger] result@[j], samples@) by {
            let k = result@[j];
            assert(result@.contains(k));
            lemma_expand_samples(samples@, k);
            let i = choose|i: int| 0 <= i < samples@.len() && #[trigger] sample_keys(samples@[i]).contains(k);
            assert(in_grid(samples@[i]));
            law_sample_keys(samples@[i]);
            assert(key_from_sample(k, samples@[i]));
        }
        assert forall|k: TileKey| #[trigger] result@.contains(k) <==>
            exists|i: int| 0 <= i < samples@.len() && #[trigger] sample_keys(samples@[i]).contains(k) by {
            lemma_expand_samples(samples@, k);
        }
    }
    result
}

/// Every key occurs once in `dedup(s)`, and exactly the keys of `s` occur.
pub proof fn lemma_dedup(s: Seq<TileKey>)
    ensures
        dedup(s).no_duplicates(),
        forall|k: TileKey| dedup(s).contains(k) <==> s.contains(k),
    decreases s.len(),
{
    if s.len() > 0 {
        let t = s.drop_last();
        let last = s.last();
        lemma_dedup(t);
        let d = dedup(t);
        assert forall|k: TileKey| d.push(last).contains(k) <==> (d.contains(k) || k == last) by {
            if d.push(last).contains(k) {
                let i = choose|i: int| 0 <= i < d.push(last).len() && d.push(last)[i] == k;
                if i < d.len() {
                    assert(d[i] == k);
                }
            }
            if d.contains(k) {
                let i = choose|i: int| 0 <= i < d.len() && d[i] == k;
                assert(d.push(last)[i] == k);
            }
            if k == last {
                assert(d.push(last)[d.len() as int] == k);
            }
        }
        assert forall|k: TileKey| s.contains(k) <==> (t.contains(k) || k == last) by {
            if s.contains(k) {
                let i = choose|i: int| 0 <= i < s.len() && s[i] == k;
                if i < t.len() {
                    assert(t[i] == k);
                }
            }
            if t.contains(k) {
                let i = choose|i: int| 0 <= i < t.len() && t[i] == k;
                assert(s[i] == k);
            }
            if k == last {
                assert(s[s.len() - 1] == k);
            }
        }
    }
}

/// The keys asked for by samples: a key is asked for exactly when some
/// sample on the grid has its tile and its slot or the slot before.
pub proof fn lemma_expand_samples(ss: Seq<Sample>, k: TileKey)
    ensures
        expand_samples(ss).contains(k) <==> exists|i: int| 0 <= i < ss.len() && #[trigger] sample_keys(ss[i]).contains(k),
    decreases ss.len(),
{
    if ss.len() > 0 {
        let t = ss.drop_last();
        lemma_expand_samples(t, k);
        let a = expand_samples(t);
        let b = sample_keys(ss.last());
        if (a + b).contains(k) {
            let j = choose|j: int| 0 <= j < (a + b).len() && (a + b)[j] == k;
            if j < a.len() {
                assert(a[j] == k);
                let i = choose|i: int| 0 <= i < t.len() && #[trigger] sample_keys(t[i]).contains(k);
                assert(ss[i] == t[i]);
            } else {
                assert(b[j - a.len()] == k);
                assert(sample_keys(ss[ss.len() - 1]).contains(k));
            }
        }
        if exists|i: int| 0 <= i < ss.len() && #[trigger] sample_keys(ss[i]).contains(k) {
            let i = choose|i: int| 0 <= i < ss.len() && #[trigger] sample_keys(ss[i]).contains(k);
            if i < t.len() {
                assert(t[i] == ss[i]);
                assert(a.contains(k));
                let j = choose|j: int| 0 <= j < a.len() && a[j] == k;
                assert((a + b)[j] == k);
            } else {
                let j = choose|j: int| 0 <= j < b.len() && b[j] == k;
                assert((a + b)[a.len() + j] == k);
            }
        }
    }
}

// ── Laws of the table ─────────────────────────────────────────────────────────

/// After a granted request, the vehicle holds every key it asked for.
pub proof fn law_granted_keys_held(m: Map<TileKey, u32>, slots: Seq<TileKey>, id: u32)
    requires
        grantable(m, slots, id),
    ensures
        forall|i: int| 0 <= i < slots.len() ==>
            grant(m, slots, id).contains_key(#[trigger] slots[i]) && grant(m, slots, id)[slots[i]] == id,
{
    assert forall|i: int| 0 <= i < slots.len() implies
        grant(m, slots, id).contains_key(#[trigger] slots[i]) && grant(m, slots, id)[slots[i]] == id by {
        assert(slots.contains(slots[i]));
    }
}

/// A request never takes a key from another vehicle: whether it is granted
/// or refused, every key held by someone else keeps its holder.
pub proof fn law_request_never_steals(m: Map<TileKey, u32>, slots: Seq<TileKey>, id: u32, k: TileKey)
    requires
        m.contains_key(k),
        m[k] != id,
    ensures
        ({
            let after = if grantable(m, slots, id) { grant(m, slots, id) } else { m };
            after.contains_key(k) && after[k] == m[k]
        }),
{
    if grantable(m, slots, id) && slots.contains(k) {
        let i = choose|i: int| 0 <= i < slots.len() && slots[i] == k;
        assert(slot_free(m, slots[i], id));
    }
}

/// Mutual exclusion: once vehicle `a` holds its keys, a request by another
/// vehicle `b` for any of those keys is refused.
pub proof fn law_conflicting_request_refused(
    m: Map<TileKey, u32>,
    slots_a: Seq<TileKey>,
    a: u32,
    slots_b: Seq<TileKey>,
    b: u32,
    k: TileKey,
)
    requires
        a != b,
        grantable(m, slots_a, a),
        slots_a.contains(k),
        slots_b.contains(k),
    ensures
        !grantable(grant(m, slots_a, a), slots_b, b),
{
    let j = choose|j: int| 0 <= j < slots_b.len() && slots_b[j] == k;
    assert(!slot_free(grant(m, slots_a, a), slots_b[j], b));
}

/// Asking again for keys already granted succeeds and changes nothing.
pub proof fn law_request_idempotent(m: Map<TileKey, u32>, slots: Seq<TileKey>, id: u32)
    requires
        grantable(m, slots, id),
    ensures
        grantable(grant(m, slots, id), slots, id),
        grant(grant(m, slots, id), slots, id) == grant(m, slots, id),
{
    law_granted_keys_held(m, slots, id);
    assert(grant(grant(m, slots, id), slots, id) =~= grant(m, slots, id));
}

/// After a release the vehicle holds nothing, and every other reservation is
/// as it was.
pub proof fn law_release_removes_only_own(m: Map<TileKey, u32>, id: u32, k: TileKey)
    ensures
        !(without_vehicle(m, id).contains_key(k) && without_vehicle(m, id)[k] == id),
        (m.contains_key(k) && m[k] != id) ==> without_vehicle(m, id).contains_key(k)
            && without_vehicle(m, id)[k] == m[k],
{
}

/// Once vehicle `a` has released its reservations, a request by `b` is
/// granted if each key it asks for was free for `b` or held by `a`.
pub proof fn law_release_frees(m: Map<TileKey, u32>, a: u32, slots: Seq<TileKey>, b: u32)
    requires
        forall|i: int| 0 <= i < slots.len() ==>
            slot_free(m, #[trigger] slots[i], b) || m[slots[i]] == a,
    ensures
        grantable(without_vehicle(m, a), slots, b),
{
}

/// Releasing a vehicle undoes its granted request: the table is what
/// releasing it would have left before the request.
pub proof fn law_release_undoes_request(m: Map<TileKey, u32>, slots: Seq<TileKey>, id: u32)
    requires
        grantable(m, slots, id),
    ensures
        without_vehicle(grant(m, slots, id), id) == without_vehicle(m, id),
{
    assert forall|k: TileKey| without_vehicle(grant(m, slots, id), id).contains_key(k)
        <==> without_vehicle(m, id).contains_key(k) by {
        if slots.contains(k) {
            let i = choose|i: int| 0 <= i < slots.len() && slots[i] == k;
            assert(slot_free(m, slots[i], id));
        }
    }
    assert(without_vehicle(grant(m, slots, id), id) =~= without_vehicle(m, id));
}

/// Cleaning up twice at the same slot is cleaning up once, and clean-up and
/// release can be done in either order.
pub proof fn law_cleanup_release(m: Map<TileKey, u32>, now_slot: u32, id: u32)
    ensures
        not_stale(not_stale(m, now_slot), now_slot) == not_stale(m, now_slot),
        without_vehicle(not_stale(m, now_slot), id) == not_stale(without_vehicle(m, id), now_slot),
{
    assert(not_stale(not_stale(m, now_slot), now_slot) =~= not_stale(m, now_slot));
    assert(without_vehicle(not_stale(m, now_slot), id) =~= not_stale(without_vehicle(m, id), now_slot));
}

/// Vehicles whose requests share no key can both hold their keys: the second
/// request is granted after the first.
pub proof fn law_disjoint_requests_both_granted(
    m: Map<TileKey, u32>,
    slots_a: Seq<TileKey>,
    a: u32,
    slots_b: Seq<TileKey>,
    b: u32,
)
    requires
        grantable(m, slots_a, a),
        grantable(m, slots_b, b),
        forall|k: TileKey| slots_a.contains(k) ==> !slots_b.contains(k),
    ensures
        grantable(grant(m, slots_a, a), slots_b, b),
{
    assert forall|i: int| 0 <= i < slots_b.len() implies slot_free(grant(m, slots_a, a), #[trigger] slots_b[i], b) by {
        assert(slots_b.contains(slots_b[i]));
    }
}

/// Key `k` is one a sample asks for: the sample's tile lies on the grid, the
/// key is that tile, and its slot is the sample's slot or the one after it.
pub open spec fn key_from_sample(k: TileKey, s: Sample) -> bool {
    &&& 0 <= s.0 < GRID_N
    &&& 0 <= s.1 < GRID_N
    &&& k.0 as int == s.0
    &&& k.1 as int == s.1
    &&& (k.2 as int == s.2 || k.2 as int == s.2 + 1)
}

/// Some sample of `ss` asks for key `k`.
pub open spec fn key_has_source(k: TileKey, ss: Seq<Sample>) -> bool {
    exists|i: int| 0 <= i < ss.len() && #[trigger] key_from_sample(k, ss[i])
}

/// A sample on the grid asks for its tile in its own time slot and in the
/// slot numerically one after it (the timing buffer), and for nothing else; a
/// sample off the grid asks for nothing.
pub proof fn law_sample_keys(s: Sample)
    ensures
        s.2 < u32::MAX ==> forall|k: TileKey| #[trigger] sample_keys(s).contains(k) ==> key_from_sample(k, s),
        in_grid(s) && s.2 < u32::MAX ==> {
            let ks = sample_keys(s);
            &&& ks.len() == 2
            &&& ks[0].0 as int == s.0 && ks[0].1 as int == s.1 && ks[0].2 as int == s.2
            &&& ks[1].0 as int == s.0 && ks[1].1 as int == s.1 && ks[1].2 as int == s.2 + 1
        },
        !in_grid(s) ==> sample_keys(s).len() == 0,
{
    if s.2 < u32::MAX {
        assert forall|k: TileKey| #[trigger] sample_keys(s).contains(k) implies key_from_sample(k, s) by {
            let j = choose|j: int| 0 <= j < sample_keys(s).len() && sample_keys(s)[j] == k;
            assert(in_grid(s));
        }
    }
}

/// Clean-up drops exactly the reservations whose slot has passed: a key held
/// for the current slot or a later one, however far ahead, survives with the
/// same holder, and no key for an earlier slot survives.
pub proof fn law_cleanup_keeps_current_and_future(m: Map<TileKey, u32>, now_slot: u32, k: TileKey)
    ensures
        m.contains_key(k) && k.2 >= now_slot ==>
            not_stale(m, now_slot).contains_key(k) && not_stale(m, now_slot)[k] == m[k],
        k.2 < now_slot ==> !not_stale(m, now_slot).contains_key(k),
        not_stale(m, now_slot).contains_key(k) ==> m.contains_key(k) && not_stale(m, now_slot)[k] == m[k],
{
}

} // verus!
