//! The ephemeral session cache: an injected key/value store mapping session
//! keys to authenticated user ids, with optional per-key expiry.
//!
//! The cache has no clock of its own: the host passes the current instant
//! (in seconds) into every operation that needs one, and expiry is judged
//! against that instant.

use vstd::prelude::*;

verus! {

/// The value a session key maps to: the authenticated user id, and the
/// instant (if any) at which the mapping lapses.
pub ghost struct SessVal {
    pub user_id: i32,
    pub expiry: Option<u64>,
}

/// Whether a mapping is still live at instant `now`: stored without expiry,
/// or not yet lapsed.
pub open spec fn live(v: SessVal, now: u64) -> bool {
    match v.expiry {
        None => true,
        Some(e) => now < e,
    }
}

/// What a lookup of `key` at instant `now` yields from the mappings `m`: the
/// stored user id while the mapping is live, and nothing afterwards or when
/// the key is absent.
pub open spec fn spec_get(m: Map<Seq<char>, SessVal>, key: Seq<char>, now: u64) -> Option<i32> {
    if m.contains_key(key) && live(m[key], now) {
        Some(m[key].user_id)
    } else {
        None
    }
}

/// The instant at which a mapping stored at `now` with time-to-live `ttl`
/// lapses, saturating at the largest representable instant.
pub open spec fn expiry_at(now: u64, ttl: u64) -> u64 {
    if now + ttl <= u64::MAX {
        (now + ttl) as u64
    } else {
        u64::MAX
    }
}

struct SessEntry {
    key: String,
    user_id: i32,
    expiry: Option<u64>,
}

/// Fast ephemeral storage of session mappings. A key, once stored, resolves
/// to exactly one user id until it expires or is removed; storing under a
/// present key overwrites the prior mapping.
pub struct SessionCache {
    entries: Vec<SessEntry>,
}

impl SessionCache {
    spec fn entry_val(e: SessEntry) -> SessVal {
        SessVal { user_id: e.user_id, expiry: e.expiry }
    }

    /// The live and lapsed mappings currently stored.
    pub closed spec fn view(&self) -> Map<Seq<char>, SessVal> {
        Map::new(
            |k: Seq<char>|
                exists|i: int| 0 <= i < self.entries@.len() && (#[trigger] self.entries@[i]).key@ == k,
            |k: Seq<char>|
                Self::entry_val(
                    self.entries@[choose|i: int|
                        0 <= i < self.entries@.len() && (#[trigger] self.entries@[i]).key@ == k],
                ),
        )
    }

    /// The cache invariant: no two stored entries share a key.
    pub closed spec fn wf(&self) -> bool {
        forall|i: int, j: int|
            0 <= i < j < self.entries@.len() ==> (#[trigger] self.entries@[i]).key@ != (
            #[trigger] self.entries@[j]).key@
    }

    /// Under the invariant, the entry at a given index is what its key
    /// resolves to.
    proof fn lemma_view_at(&self, i: int)
        requires
            self.wf(),
            0 <= i < self.entries@.len(),
        ensures
            self@.contains_key(self.entries@[i].key@),
            self@[self.entries@[i].key@] == Self::entry_val(self.entries@[i]),
    {
        let k = self.entries@[i].key@;
        assert(self@.contains_key(k));
        let j = choose|j: int| 0 <= j < self.entries@.len() && (#[trigger] self.entries@[j]).key@ == k;
        if i < j {
            assert(self.entries@[i].key@ != self.entries@[j].key@);
        } else if j < i {
            assert(self.entries@[j].key@ != self.entries@[i].key@);
        }
    }

    /// Returns an empty cache.
    pub fn new() -> (s: SessionCache)
        ensures
            s.wf(),
            s@ == Map::<Seq<char>, SessVal>::empty(),
    {
        let s = SessionCache { entries: Vec::new() };
        proof {
            assert(s@ =~= Map::<Seq<char>, SessVal>::empty());
        }
        s
    }

    /// Returns the index of the entry stored under `key`, if any.
    fn find(&self, key: &String) -> (r: Option<usize>)
        ensures
            match r {
                Some(i) => i < self.entries@.len() && self.entries@[i as int].key@ == key@,
                None => forall|j: int|
                    0 <= j < self.entries@.len() ==> (#[trigger] self.entries@[j]).key@ != key@,
            },
    {
        let n = self.entries.len();
        let mut i: usize = 0;
        while i < n
            invariant
                n == self.entries@.len(),
                i <= n,
                forall|j: int| 0 <= j < i ==> (#[trigger] self.entries@[j]).key@ != key@,
            decreases n - i,
        {
            if self.entries[i].key == *key {
                return Some(i);
            }
            i = i + 1;
        }
        None
    }

    /// Stores `e`, overwriting any prior entry under the same key.
    fn insert_entry(&mut self, e: SessEntry)
        requires
            old(self).wf(),
        ensures
            final(self).wf(),
            final(self)@ == old(self)@.insert(e.key@, Self::entry_val(e)),
    {
        let ghost pre = *self;
        let ghost ek = e.key@;
        let ghost ev = Self::entry_val(e);
        match self.find(&e.key) {
            Some(i) => {
                self.entries[i] = e;
                proof {
                    assert forall|a: int|
                        0 <= a < self.entries@.len() implies (#[trigger] self.entries@[a]).key@
                        == pre.entries@[a].key@ by {}
                    assert(self.wf());
                    assert forall|k: Seq<char>|
                        #[trigger] self@.contains_key(k) == pre@.insert(ek, ev).contains_key(k) by {
                        if self@.contains_key(k) {
                            let j = choose|j: int|
                                0 <= j < self.entries@.len() && (#[trigger] self.entries@[j]).key@
                                    == k;
                            assert(pre.entries@[j].key@ == k);
                            assert(pre@.contains_key(k));
                        }
                        if pre@.insert(ek, ev).contains_key(k) {
                            if k == ek {
                                assert(self.entries@[i as int].key@ == k);
                            } else {
                                let j = choose|j: int|
                                    0 <= j < pre.entries@.len() && (#[trigger] pre.entries@[j]).key@
                                        == k;
                                assert(self.entries@[j].key@ == k);
                            }
                            assert(self@.contains_key(k));
                        }
                    }
                    assert forall|k: Seq<char>| #[trigger]
                        self@.contains_key(k) implies self@[k] == pre@.insert(ek, ev)[k] by {
                        let j = choose|j: int|
                            0 <= j < self.entries@.len() && (#[trigger] self.entries@[j]).key@ == k;
                        self.lemma_view_at(j);
                        if j == i as int {
                            assert(k == ek);
                        } else {
                            assert(self.entries@[j] == pre.entries@[j]);
                            pre.lemma_view_at(j);
                            assert(pre.entries@[i as int].key@ == ek);
                            if k == ek {
                                assert(false);
                            }
                        }
                    }
                    assert(self@ =~= pre@.insert(ek, ev));
                }
            },
            None => {
                self.entries.push(e);
                proof {
                    let n = pre.entries@.len() as int;
                    assert forall|a: int, b: int|
                        0 <= a < b < self.entries@.len() implies (#[trigger] self.entries@[a]).key@
                        != (#[trigger] self.entries@[b]).key@ by {
                        if b < n {
                            assert(self.entries@[a] == pre.entries@[a]);
                            assert(self.entries@[b] == pre.entries@[b]);
                        } else {
                            assert(self.entries@[b].key@ == ek);
                            assert(self.entries@[a] == pre.entries@[a]);
                            assert(pre.entries@[a].key@ != ek);
                        }
                    }
                    assert(self.wf());
                    assert forall|k: Seq<char>|
                        #[trigger] self@.contains_key(k) == pre@.insert(ek, ev).contains_key(k) by {
                        if self@.contains_key(k) {
                            let j = choose|j: int|
                                0 <= j < self.entries@.len() && (#[trigger] self.entries@[j]).key@
                                    == k;
                            if j < n {
                                assert(pre.entries@[j].key@ == k);
                                assert(pre@.contains_key(k));
                            } else {
                                assert(k == ek);
                            }
                        }
                        if pre@.insert(ek, ev).contains_key(k) {
                            if k == ek {
                                assert(self.entries@[n].key@ == k);
                            } else {
                                let j = choose|j: int|
                                    0 <= j < pre.entries@.len() && (#[trigger] pre.entries@[j]).key@
                                        == k;
                                assert(self.entries@[j].key@ == k);
                            }
                            assert(self@.contains_key(k));
                        }
                    }
                    assert forall|k: Seq<char>| #[trigger]
                        self@.contains_key(k) implies self@[k] == pre@.insert(ek, ev)[k] by {
                        let j = choose|j: int|
                            0 <= j < self.entries@.len() && (#[trigger] self.entries@[j]).key@ == k;
                        self.lemma_view_at(j);
                        if j == n {
                            assert(k == ek);
                        } else {
                            assert(self.entries@[j] == pre.entries@[j]);
                            pre.lemma_view_at(j);
                            assert(pre.entries@[j].key@ != ek);
                        }
                    }
                    assert(self@ =~= pre@.insert(ek, ev));
                }
            },
        }
    }

    /// Stores the mapping `key -> user_id` with no expiry, overwriting any
    /// prior mapping under the same key.
    pub fn insert(&mut self, user_id: i32, key: String)
        requires
            old(self).wf(),
        ensures
            final(self).wf(),
            final(self)@ == old(self)@.insert(key@, (SessVal { user_id: user_id, expiry: None })),
    {
        self.insert_entry(SessEntry { key, user_id, expiry: None });
    }

    /// Stores the mapping `key -> user_id`, lapsing `ttl` seconds after the
    /// instant `now`, overwriting any prior mapping under the same key.
    pub fn insert_for(&mut self, user_id: i32, key: String, ttl: u64, now: u64)
        requires
            old(self).wf(),
        ensures
            final(self).wf(),
            final(self)@ == old(self)@.insert(
                key@,
                (SessVal { user_id: user_id, expiry: Some(expiry_at(now, ttl)) }),
            ),
    {
        let exp: u64 = if ttl > u64::MAX - now {
            u64::MAX
        } else {
            now + ttl
        };
        self.insert_entry(SessEntry { key, user_id, expiry: Some(exp) });
    }

    /// Looks `key` up at instant `now`: the live mapping, or nothing if the
    /// key is absent or its mapping has lapsed.
    pub fn get(&self, key: &String, now: u64) -> (r: Option<i32>)
        requires
            self.wf(),
        ensures
            r == spec_get(self@, key@, now),
    {
        match self.find(key) {
            Some(i) => {
                proof {
                    self.lemma_view_at(i as int);
                }
                let e = &self.entries[i];
                match e.expiry {
                    Some(exp) => if now < exp {
                        Some(e.user_id)
                    } else {
                        None
                    },
                    None => Some(e.user_id),
                }
            },
            None => None,
        }
    }

    /// Removes the entry at index `i`.
    fn remove_at(&mut self, i: usize)
        requires
            old(self).wf(),
            i < old(self).entries@.len(),
        ensures
            final(self).wf(),
            final(self).entries@ == old(self).entries@.remove(i as int),
            final(self)@ == old(self)@.remove(old(self).entries@[i as int].key@),
    {
        let ghost pre = *self;
        let ghost k0 = self.entries@[i as int].key@;
        self.entries.remove(i);
        proof {
            let n = self.entries@.len();
            assert forall|a: int, b: int|
                0 <= a < b < n implies (#[trigger] self.entries@[a]).key@ != (
                #[trigger] self.entries@[b]).key@ by {
                let a0 = if a < i as int { a } else { a + 1 };
                let b0 = if b < i as int { b } else { b + 1 };
                assert(self.entries@[a] == pre.entries@[a0]);
                assert(self.entries@[b] == pre.entries@[b0]);
            }
            assert(self.wf());
            assert forall|k: Seq<char>|
                #[trigger] self@.contains_key(k) == pre@.remove(k0).contains_key(k) by {
                if self@.contains_key(k) {
                    let j = choose|j: int|
                        0 <= j < self.entries@.len() && (#[trigger] self.entries@[j]).key@ == k;
                    let j0 = if j < i as int { j } else { j + 1 };
                    assert(self.entries@[j] == pre.entries@[j0]);
                    assert(pre@.contains_key(k));
                    if k == k0 {
                        pre.lemma_view_at(j0);
                        pre.lemma_view_at(i as int);
                        assert(false);
                    }
                }
                if pre@.remove(k0).contains_key(k) {
                    let j0 = choose|j0: int|
                        0 <= j0 < pre.entries@.len() && (#[trigger] pre.entries@[j0]).key@ == k;
                    if j0 == i as int {
                        assert(false);
                    }
                    let j = if j0 < i as int { j0 } else { j0 - 1 };
                    assert(self.entries@[j] == pre.entries@[j0]);
                    assert(self@.contains_key(k));
                }
            }
            assert forall|k: Seq<char>| #[trigger]
                self@.contains_key(k) implies self@[k] == pre@.remove(k0)[k] by {
                let j = choose|j: int|
                    0 <= j < self.entries@.len() && (#[trigger] self.entries@[j]).key@ == k;
                self.lemma_view_at(j);
                let j0 = if j < i as int { j } else { j + 1 };
                assert(self.entries@[j] == pre.entries@[j0]);
                pre.lemma_view_at(j0);
            }
            assert(self@ =~= pre@.remove(k0));
        }
    }

    /// Removes the mapping under `key` if one is stored; removing an absent
    /// key is a no-op.
    pub fn remove(&mut self, key: &String)
        requires
            old(self).wf(),
        ensures
            final(self).wf(),
            final(self)@ == old(self)@.remove(key@),
    {
        let ghost pre = *self;
        match self.find(key) {
            Some(i) => {
                self.remove_at(i);
            },
            None => {
                proof {
                    assert(!pre@.contains_key(key@));
                    assert(self@ =~= pre@.remove(key@));
                }
            },
        }
    }

    /// Removes every mapping that resolves to `user_id`, leaving every other
    /// mapping in place: the reverse cascade account deletion needs.
    pub fn remove_user(&mut self, user_id: i32)
        requires
            old(self).wf(),
        ensures
            final(self).wf(),
            forall|k: Seq<char>|
                #[trigger] final(self)@.contains_key(k) <==> (old(self)@.contains_key(k) && old(
                    self,
                )@[k].user_id != user_id),
            forall|k: Seq<char>| #[trigger]
                final(self)@.contains_key(k) ==> final(self)@[k] == old(self)@[k],
    {
        let ghost orig = *self;
        let mut i: usize = 0;
        while i < self.entries.len()
            invariant
                self.wf(),
                i <= self.entries@.len(),
                forall|j: int| 0 <= j < i ==> (#[trigger] self.entries@[j]).user_id != user_id,
                forall|k: Seq<char>| #[trigger]
                    self@.contains_key(k) ==> orig@.contains_key(k) && self@[k] == orig@[k],
                forall|k: Seq<char>|
                    orig@.contains_key(k) && (#[trigger] orig@[k]).user_id != user_id
                        ==> self@.contains_key(k),
            decreases self.entries@.len() - i,
        {
            if self.entries[i].user_id == user_id {
                let ghost prev = *self;
                let ghost ki = self.entries@[i as int].key@;
                proof {
                    prev.lemma_view_at(i as int);
                }
                self.remove_at(i);
                proof {
                    assert forall|j: int|
                        0 <= j < i implies (#[trigger] self.entries@[j]).user_id != user_id by {
                        assert(self.entries@[j] == prev.entries@[j]);
                    }
                    assert forall|k: Seq<char>|
                        orig@.contains_key(k) && (#[trigger] orig@[k]).user_id != user_id
                            implies self@.contains_key(k) by {
                        assert(prev@.contains_key(k));
                        if k == ki {
                            assert(prev@[ki].user_id == user_id);
                        }
                    }
                }
            } else {
                i = i + 1;
            }
        }
        proof {
            assert forall|k: Seq<char>| #[trigger]
                self@.contains_key(k) implies orig@.contains_key(k) && orig@[k].user_id != user_id by {
                let j = choose|j: int|
                    0 <= j < self.entries@.len() && (#[trigger] self.entries@[j]).key@ == k;
                self.lemma_view_at(j);
                assert(self.entries@[j].user_id != user_id);
            }
        }
    }
}

/// Round trip: a lookup right after `insert(user_id, key)` yields `user_id`,
/// and a lookup right after `remove(key)` yields nothing, at any instant.
pub proof fn lemma_insert_then_get(m: Map<Seq<char>, SessVal>, user_id: i32, key: Seq<char>, now: u64)
    ensures
        spec_get(m.insert(key, (SessVal { user_id: user_id, expiry: None })), key, now) == Some(
            user_id,
        ),
        spec_get(m.remove(key), key, now) == None::<i32>,
{
}

/// Expiry: once the time-to-live of a mapping stored with `insert_for` has
/// elapsed, a lookup of its key yields nothing.
pub proof fn lemma_expired_get(
    m: Map<Seq<char>, SessVal>,
    user_id: i32,
    key: Seq<char>,
    ttl: u64,
    stored: u64,
    now: u64,
)
    requires
        now >= expiry_at(stored, ttl),
    ensures
        spec_get(
            m.insert(key, (SessVal { user_id: user_id, expiry: Some(expiry_at(stored, ttl)) })),
            key,
            now,
        ) == None::<i32>,
{
}

} // verus!
