//! Short-lived store of match snapshots. One snapshot is found under the
//! identity of each of its participants; all of its entries expire together.
//!
//! The cache keeps no clock: every operation is told the time, in the unit
//! of the time-to-live.

use crate::fixed_string::{Puuid, RiotMatchId};
use crate::live_game::{LiveGame, LiveGameView};
use std::sync::Arc;
use vstd::prelude::*;

verus! {

/// What the cache holds under one identity.
pub struct CachedGame {
    pub snapshot: LiveGameView,
    pub expires_at: u64,
}

/// The contents of a cache: entries by the bytes of an identity.
pub type CacheModel = Map<Seq<u8>, CachedGame>;

/// The time at which an entry made at `now` expires: `now + ttl`, held at
/// the largest time where the sum is beyond it.
pub open spec fn expiry(now: u64, ttl: u64) -> u64 {
    if now + ttl > u64::MAX {
        u64::MAX
    } else {
        (now + ttl) as u64
    }
}

/// What a read of `key` at `now` finds: the snapshot of an entry that has
/// not expired.
pub open spec fn lookup(m: CacheModel, key: Seq<u8>, now: u64) -> Option<LiveGameView> {
    if m.dom().contains(key) && now < m[key].expires_at {
        Some(m[key].snapshot)
    } else {
        None
    }
}

/// The contents after `game` is stored under each of `keys`: those keys
/// hold the new entry, every other key what it held.
pub open spec fn stored(
    m: CacheModel,
    keys: Seq<Seq<u8>>,
    game: LiveGameView,
    expires_at: u64,
) -> CacheModel {
    Map::new(
        |k: Seq<u8>| m.dom().contains(k) || keys.contains(k),
        |k: Seq<u8>|
            if keys.contains(k) {
                CachedGame { snapshot: game, expires_at }
            } else {
                m[k]
            },
    )
}

/// The contents after a sweep at `now`: the entries that have not expired.
pub open spec fn swept(m: CacheModel, now: u64) -> CacheModel {
    m.restrict(Set::new(|k: Seq<u8>| m.dom().contains(k) && now < m[k].expires_at))
}

/// The buffers of a list of identities.
pub open spec fn key_bytes(puuids: Seq<Puuid>) -> Seq<Seq<u8>> {
    puuids.map_values(|p: Puuid| p.bytes())
}

/// `std::sync::Arc::clone`: one more handle on the allocation of the one
/// given, and so on the same value.
#[verifier::external_body]
fn share(snapshot: &Arc<LiveGame>) -> (res: Arc<LiveGame>)
    ensures
        *res == **snapshot,
{
    Arc::clone(snapshot)
}

/// One identity with the snapshot found under it. The entries of one match
/// hold handles on one snapshot.
struct CacheEntry {
    key: Puuid,
    snapshot: Arc<LiveGame>,
    expires_at: u64,
}

/// What an entry holds, as a value.
spec fn entry_value(e: CacheEntry) -> CachedGame {
    CachedGame { snapshot: (*e.snapshot)@, expires_at: e.expires_at }
}

/// Whether some entry has this key.
spec fn holds(entries: Seq<CacheEntry>, key: Seq<u8>) -> bool {
    exists|i: int| 0 <= i < entries.len() && #[trigger] entries[i].key.bytes() == key
}

/// The position of an entry with this key.
spec fn index_of(entries: Seq<CacheEntry>, key: Seq<u8>) -> int {
    choose|i: int| 0 <= i < entries.len() && #[trigger] entries[i].key.bytes() == key
}

/// No key is held twice.
spec fn unique(entries: Seq<CacheEntry>) -> bool {
    forall|i: int, j: int|
        0 <= i < j < entries.len() ==> #[trigger] entries[i].key.bytes()
            != #[trigger] entries[j].key.bytes()
}

/// The contents that a list of entries stands for.
spec fn model(entries: Seq<CacheEntry>) -> CacheModel {
    Map::new(
        |k: Seq<u8>| holds(entries, k),
        |k: Seq<u8>| entry_value(entries[index_of(entries, k)]),
    )
}

/// With unique keys, the entry at `i` is what the model holds under its key.
proof fn lemma_model_at(entries: Seq<CacheEntry>, i: int)
    requires
        unique(entries),
        0 <= i < entries.len(),
    ensures
        model(entries).dom().contains(entries[i].key.bytes()),
        model(entries)[entries[i].key.bytes()] == entry_value(entries[i]),
{
    let key = entries[i].key.bytes();
    assert(holds(entries, key));
    let j = index_of(entries, key);
    assert(0 <= j < entries.len() && entries[j].key.bytes() == key);
    if j < i {
        assert(entries[j].key.bytes() != entries[i].key.bytes());
    }
    if i < j {
        assert(entries[i].key.bytes() != entries[j].key.bytes());
    }
}

/// The live-game cache: snapshots by participant identity, each with the
/// time at which it expires.
pub struct LiveGameCache {
    ttl: u64,
    entries: Vec<CacheEntry>,
}

impl View for LiveGameCache {
    type V = CacheModel;

    closed spec fn view(&self) -> CacheModel {
        model(self.entries@)
    }
}

/// Puts one entry under `key`, in place of what was there.
fn put_entry(entries: &mut Vec<CacheEntry>, key: Puuid, snapshot: Arc<LiveGame>, expires_at: u64)
    requires
        unique(old(entries)@),
    ensures
        unique(final(entries)@),
        model(final(entries)@) == model(old(entries)@).insert(
            key.bytes(),
            CachedGame { snapshot: (*snapshot)@, expires_at },
        ),
{
    let ghost before = entries@;
    let mut i: usize = 0;
    let mut found = false;
    while i < entries.len() && !found
        invariant
            i <= entries@.len(),
            entries@ == before,
            forall|j: int| 0 <= j < i ==> #[trigger] before[j].key.bytes() != key.bytes(),
            found ==> i < before.len() && before[i as int].key.bytes() == key.bytes(),
        decreases entries@.len() - i + if found { 0int } else { 1int },
    {
        if entries[i].key == key {
            found = true;
        } else {
            i += 1;
        }
    }
    let entry = CacheEntry { key, snapshot, expires_at };
    if found {
        entries[i] = entry;
        proof {
            lemma_model_replaced(before, i as int, entry);
        }
    } else {
        entries.push(entry);
        proof {
            lemma_model_pushed(before, entry);
        }
    }
}

/// Removes the entries that have expired by `now`.
fn sweep(entries: &mut Vec<CacheEntry>, now: u64)
    requires
        unique(old(entries)@),
    ensures
        unique(final(entries)@),
        model(final(entries)@) == swept(model(old(entries)@), now),
{
    let ghost start = model(entries@);
    let mut i: usize = 0;
    proof {
        assert forall|j: int| 0 <= j < entries@.len() implies start.dom().contains(
            (#[trigger] entries@[j]).key.bytes(),
        ) && start[entries@[j].key.bytes()] == entry_value(entries@[j]) by {
            lemma_model_at(entries@, j);
        }
    }
    while i < entries.len()
        invariant
            i <= entries@.len(),
            unique(entries@),
            forall|j: int| 0 <= j < i ==> now < (#[trigger] entries@[j]).expires_at,
            forall|j: int|
                0 <= j < entries@.len() ==> start.dom().contains(
                    (#[trigger] entries@[j]).key.bytes(),
                ) && start[entries@[j].key.bytes()] == entry_value(entries@[j]),
            forall|k: Seq<u8>|
                start.dom().contains(k) && now < start[k].expires_at ==> holds(entries@, k),
        decreases entries@.len() - i,
    {
        if entries[i].expires_at <= now {
            let ghost before = entries@;
            entries.swap_remove(i);
            proof {
                lemma_swap_removed(before, entries@, i as int);
                assert forall|k: Seq<u8>|
                    start.dom().contains(k) && now < start[k].expires_at implies holds(
                    entries@,
                    k,
                ) by {
                    assert(holds(before, k));
                    let j = index_of(before, k);
                    assert(j != i);
                    if j == before.len() - 1 {
                        assert(entries@[i as int] == before[j]);
                    } else {
                        assert(entries@[j] == before[j]);
                    }
                }
            }
        } else {
            i += 1;
        }
    }
    proof {
        let after = model(entries@);
        let want = swept(start, now);
        assert forall|k: Seq<u8>| after.dom().contains(k) implies want.dom().contains(k)
            && after[k] == want[k] by {
            let j = index_of(entries@, k);
            lemma_model_at(entries@, j);
        }
        assert(after =~= want);
    }
}

impl LiveGameCache {
    /// No identity is held twice.
    #[verifier::type_invariant]
    spec fn well_formed(self) -> bool {
        unique(self.entries@)
    }

    /// How long an entry lives.
    pub closed spec fn time_to_live(&self) -> u64 {
        self.ttl
    }

    /// An empty cache whose entries live for `ttl`.
    pub fn new(ttl: u64) -> (res: Self)
        ensures
            res@ == Map::<Seq<u8>, CachedGame>::empty(),
            res.time_to_live() == ttl,
    {
        let res = LiveGameCache { ttl, entries: Vec::new() };
        assert(res@ =~= Map::<Seq<u8>, CachedGame>::empty());
        res
    }

    /// The snapshot stored under `puuid`, unless it has expired by `now`.
    /// Whether a sweep has run in between makes no difference.
    pub fn get_game_data(&self, puuid: &Puuid, now: u64) -> (res: Option<Arc<LiveGame>>)
        ensures
            res is Some <==> lookup(self@, puuid.bytes(), now) is Some,
            res matches Some(game) ==> lookup(self@, puuid.bytes(), now) == Some((*game)@),
    {
        proof {
            use_type_invariant(self);
        }
        let mut i: usize = 0;
        while i < self.entries.len()
            invariant
                i <= self.entries@.len(),
                unique(self.entries@),
                forall|j: int| 0 <= j < i ==> #[trigger] self.entries@[j].key.bytes() != puuid.bytes(),
            decreases self.entries@.len() - i,
        {
            if self.entries[i].key == *puuid {
                proof {
                    lemma_model_at(self.entries@, i as int);
                }
                if now < self.entries[i].expires_at {
                    return Some(share(&self.entries[i].snapshot));
                } else {
                    return None;
                }
            }
            i += 1;
        }
        assert(!holds(self.entries@, puuid.bytes()));
        None
    }

    /// Stores `game` under every identity in `puuids`, to expire `ttl` after
    /// `now`. The identities share the one snapshot and the one expiry time;
    /// whatever they held before is replaced. With no identity nothing
    /// changes. The match identity is not a key.
    pub fn set_game_data(&mut self, game_id: RiotMatchId, puuids: Vec<Puuid>, game: LiveGame, now: u64)
        ensures
            final(self)@ == stored(
                old(self)@,
                key_bytes(puuids@),
                game@,
                expiry(now, old(self).time_to_live()),
            ),
            final(self).time_to_live() == old(self).time_to_live(),
    {
        proof {
            use_type_invariant(&*self);
        }
        let expires_at: u64 = now.saturating_add(self.ttl);
        let shared = Arc::new(game);
        let mut entries: Vec<CacheEntry> = Vec::new();
        std::mem::swap(&mut self.entries, &mut entries);
        let mut k: usize = 0;
        assert(model(entries@) =~= stored(
            old(self)@,
            key_bytes(puuids@.take(0)),
            game@,
            expires_at,
        ));
        while k < puuids.len()
            invariant
                k <= puuids@.len(),
                unique(entries@),
                *shared == game,
                model(entries@) == stored(
                    old(self)@,
                    key_bytes(puuids@.take(k as int)),
                    game@,
                    expires_at,
                ),
            decreases puuids@.len() - k,
        {
            put_entry(&mut entries, puuids[k], share(&shared), expires_at);
            proof {
                let done = key_bytes(puuids@.take(k as int));
                let next = key_bytes(puuids@.take(k + 1));
                assert(next =~= done.push(puuids@[k as int].bytes()));
                lemma_stored_one_more(old(self)@, done, puuids@[k as int].bytes(), game@, expires_at);
            }
            k += 1;
        }
        assert(puuids@.take(puuids@.len() as int) =~= puuids@);
        self.entries = entries;
    }

    /// Removes every entry that has expired by `now`, and nothing else.
    /// Reads do not depend on it: it only bounds what the cache holds.
    pub fn remove_expired(&mut self, now: u64)
        ensures
            final(self)@ == swept(old(self)@, now),
            final(self).time_to_live() == old(self).time_to_live(),
    {
        proof {
            use_type_invariant(&*self);
        }
        let mut entries: Vec<CacheEntry> = Vec::new();
        std::mem::swap(&mut self.entries, &mut entries);
        sweep(&mut entries, now);
        self.entries = entries;
    }

    /// Number of entries held, expired or not.
    pub fn len(&self) -> (res: usize)
        ensures
            res == self@.dom().len(),
    {
        proof {
            use_type_invariant(self);
            lemma_model_len(self.entries@);
        }
        self.entries.len()
    }
}

/// Replacing the entry at `i` by one with the same key replaces the value
/// under that key.
proof fn lemma_model_replaced(before: Seq<CacheEntry>, i: int, entry: CacheEntry)
    requires
        unique(before),
        0 <= i < before.len(),
        before[i].key.bytes() == entry.key.bytes(),
    ensures
        unique(before.update(i, entry)),
        model(before.update(i, entry)) == model(before).insert(
            entry.key.bytes(),
            entry_value(entry),
        ),
{
    let after = before.update(i, entry);
    assert forall|a: int, b: int| 0 <= a < b < after.len() implies #[trigger] after[a].key.bytes()
        != #[trigger] after[b].key.bytes() by {
        assert(before[a].key.bytes() != before[b].key.bytes());
    }
    let want = model(before).insert(entry.key.bytes(), entry_value(entry));
    assert forall|k: Seq<u8>| model(after).dom().contains(k) <==> want.dom().contains(k) by {
        if holds(after, k) {
            let j = index_of(after, k);
            assert(before[j].key.bytes() == k);
        }
        if holds(before, k) {
            let j = index_of(before, k);
            assert(after[j].key.bytes() == k);
        }
        if k == entry.key.bytes() {
            assert(after[i].key.bytes() == k);
        }
    }
    assert forall|k: Seq<u8>| model(after).dom().contains(k) implies model(after)[k] == want[k] by {
        let j = index_of(after, k);
        lemma_model_at(after, j);
        if j != i {
            assert(before[j].key.bytes() == k);
            lemma_model_at(before, j);
            assert(before[j].key.bytes() != before[i].key.bytes());
        }
    }
    assert(model(after) =~= want);
}

/// Adding an entry with a key that is not held adds its value under that
/// key.
proof fn lemma_model_pushed(before: Seq<CacheEntry>, entry: CacheEntry)
    requires
        unique(before),
        forall|j: int| 0 <= j < before.len() ==> #[trigger] before[j].key.bytes() != entry.key.bytes(),
    ensures
        unique(before.push(entry)),
        model(before.push(entry)) == model(before).insert(entry.key.bytes(), entry_value(entry)),
{
    let after = before.push(entry);
    assert forall|a: int, b: int| 0 <= a < b < after.len() implies #[trigger] after[a].key.bytes()
        != #[trigger] after[b].key.bytes() by {
        if b < before.len() {
            assert(before[a].key.bytes() != before[b].key.bytes());
        } else {
            assert(before[a].key.bytes() != entry.key.bytes());
        }
    }
    let want = model(before).insert(entry.key.bytes(), entry_value(entry));
    assert forall|k: Seq<u8>| model(after).dom().contains(k) <==> want.dom().contains(k) by {
        if holds(after, k) {
            let j = index_of(after, k);
            if j < before.len() {
                assert(before[j].key.bytes() == k);
            }
        }
        if holds(before, k) {
            let j = index_of(before, k);
            assert(after[j].key.bytes() == k);
        }
        if k == entry.key.bytes() {
            assert(after[before.len() as int].key.bytes() == k);
        }
    }
    assert forall|k: Seq<u8>| model(after).dom().contains(k) implies model(after)[k] == want[k] by {
        let j = index_of(after, k);
        lemma_model_at(after, j);
        if j < before.len() {
            assert(before[j].key.bytes() == k);
            lemma_model_at(before, j);
        }
    }
    assert(model(after) =~= want);
}

/// Storing under one more key is storing under the others, then inserting
/// under that key.
proof fn lemma_stored_one_more(
    m: CacheModel,
    keys: Seq<Seq<u8>>,
    key: Seq<u8>,
    game: LiveGameView,
    expires_at: u64,
)
    ensures
        stored(m, keys.push(key), game, expires_at) == stored(m, keys, game, expires_at).insert(
            key,
            CachedGame { snapshot: game, expires_at },
        ),
{
    let more = keys.push(key);
    assert forall|k: Seq<u8>| more.contains(k) <==> keys.contains(k) || k == key by {
        if keys.contains(k) {
            let j = choose|j: int| 0 <= j < keys.len() && keys[j] == k;
            assert(more[j] == k);
        }
        if k == key {
            assert(more[keys.len() as int] == k);
        }
        if more.contains(k) {
            let j = choose|j: int| 0 <= j < more.len() && more[j] == k;
            if j < keys.len() {
                assert(keys[j] == k);
            }
        }
    }
    assert(stored(m, more, game, expires_at) =~= stored(m, keys, game, expires_at).insert(
        key,
        CachedGame { snapshot: game, expires_at },
    ));
}

/// After `swap_remove(i)` the keys stay unique, and every entry left was
/// there before.
proof fn lemma_swap_removed(before: Seq<CacheEntry>, after: Seq<CacheEntry>, i: int)
    requires
        unique(before),
        0 <= i < before.len(),
        after == before.update(i, before.last()).drop_last(),
    ensures
        unique(after),
        forall|j: int|
            0 <= j < after.len() ==> #[trigger] after[j] == before[if j == i {
                before.len() - 1
            } else {
                j
            }],
{
    assert forall|a: int, b: int| 0 <= a < b < after.len() implies #[trigger] after[a].key.bytes()
        != #[trigger] after[b].key.bytes() by {
        let aa = if a == i {
            before.len() - 1
        } else {
            a
        };
        let bb = if b == i {
            before.len() - 1
        } else {
            b
        };
        assert(after[a] == before[aa]);
        assert(after[b] == before[bb]);
        if aa < bb {
            assert(before[aa].key.bytes() != before[bb].key.bytes());
        } else {
            assert(before[bb].key.bytes() != before[aa].key.bytes());
        }
    }
}

/// With unique keys the model has as many keys as there are entries.
proof fn lemma_model_len(entries: Seq<CacheEntry>)
    requires
        unique(entries),
    ensures
        model(entries).dom().finite(),
        model(entries).dom().len() == entries.len(),
    decreases entries.len(),
{
    if entries.len() == 0 {
        assert(model(entries).dom() =~= Set::<Seq<u8>>::empty());
    } else {
        let rest = entries.drop_last();
        let last = entries.last();
        assert forall|a: int, b: int| 0 <= a < b < rest.len() implies #[trigger] rest[a].key.bytes()
            != #[trigger] rest[b].key.bytes() by {
            assert(entries[a].key.bytes() != entries[b].key.bytes());
        }
        lemma_model_len(rest);
        assert forall|j: int| 0 <= j < rest.len() implies #[trigger] rest[j].key.bytes()
            != last.key.bytes() by {
            assert(entries[j].key.bytes() != entries[entries.len() - 1].key.bytes());
        }
        lemma_model_pushed(rest, last);
        assert(rest.push(last) =~= entries);
        assert(!model(rest).dom().contains(last.key.bytes())) by {
            if holds(rest, last.key.bytes()) {
                let j = index_of(rest, last.key.bytes());
                assert(rest[j].key.bytes() == last.key.bytes());
            }
        }
    }
}

/// After a match is stored, a read under any of its participants, at any
/// time before the expiry, finds that one snapshot.
pub proof fn lemma_stored_then_found(
    m: CacheModel,
    keys: Seq<Seq<u8>>,
    game: LiveGameView,
    now: u64,
    ttl: u64,
    key: Seq<u8>,
    later: u64,
)
    requires
        keys.contains(key),
        later < expiry(now, ttl),
    ensures
        lookup(stored(m, keys, game, expiry(now, ttl)), key, later) == Some(game),
{
}

/// Once the time-to-live has passed, a read under a participant finds
/// nothing, whether a sweep has run or not.
pub proof fn lemma_stored_then_expired(
    m: CacheModel,
    keys: Seq<Seq<u8>>,
    game: LiveGameView,
    now: u64,
    ttl: u64,
    key: Seq<u8>,
    later: u64,
)
    requires
        keys.contains(key),
        later >= now + ttl,
    ensures
        lookup(stored(m, keys, game, expiry(now, ttl)), key, later) is None,
        lookup(swept(stored(m, keys, game, expiry(now, ttl)), later), key, later) is None,
{
}

/// Storing a match leaves every other identity as it was.
pub proof fn lemma_stored_keeps_others(
    m: CacheModel,
    keys: Seq<Seq<u8>>,
    game: LiveGameView,
    expires_at: u64,
    key: Seq<u8>,
    at: u64,
)
    requires
        !keys.contains(key),
    ensures
        lookup(stored(m, keys, game, expires_at), key, at) == lookup(m, key, at),
{
}

/// Storing under no identity changes nothing.
pub proof fn lemma_stored_nothing(m: CacheModel, game: LiveGameView, expires_at: u64)
    ensures
        stored(m, Seq::<Seq<u8>>::empty(), game, expires_at) == m,
{
    assert(stored(m, Seq::<Seq<u8>>::empty(), game, expires_at) =~= m);
}

/// A sweep removes the expired entries and only those: what is left is
/// exactly the entries that have not expired, each unchanged.
pub proof fn lemma_swept_only_expired(m: CacheModel, now: u64, key: Seq<u8>)
    ensures
        swept(m, now).dom().contains(key) <==> m.dom().contains(key) && now < m[key].expires_at,
        swept(m, now).dom().contains(key) ==> swept(m, now)[key] == m[key],
{
}

/// A sweep never changes what a read finds, at the time of the sweep or
/// later.
pub proof fn lemma_swept_then_found(m: CacheModel, now: u64, key: Seq<u8>, later: u64)
    requires
        now <= later,
    ensures
        lookup(swept(m, now), key, later) == lookup(m, key, later),
{
}

/// An entry stored at or after the time of a sweep, with a time-to-live
/// that is not zero and before the clock has reached its last value, is not
/// removed by that sweep.
pub proof fn lemma_swept_keeps_new(
    m: CacheModel,
    keys: Seq<Seq<u8>>,
    game: LiveGameView,
    sweep_at: u64,
    stored_at: u64,
    ttl: u64,
    key: Seq<u8>,
)
    requires
        keys.contains(key),
        sweep_at <= stored_at,
        stored_at < u64::MAX,
        ttl > 0,
    ensures
        swept(stored(m, keys, game, expiry(stored_at, ttl)), sweep_at).dom().contains(key),
        swept(stored(m, keys, game, expiry(stored_at, ttl)), sweep_at)[key] == (CachedGame {
            snapshot: game,
            expires_at: expiry(stored_at, ttl),
        }),
{
    let after = stored(m, keys, game, expiry(stored_at, ttl));
    assert(after.dom().contains(key));
    assert(after[key].expires_at == expiry(stored_at, ttl));
    assert(sweep_at < expiry(stored_at, ttl));
}

} // verus!
