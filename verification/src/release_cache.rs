//! Time-to-live cache over the two release-resolution results.
//!
//! The cache itself only decides: a lookup within the lifespan window serves
//! the stored value, anything else demands a fresh fetch. Whoever runs the
//! fetch stores the result only on success, so a failed fetch leaves any
//! prior valid entry in place and the next lookup retries.

use vstd::prelude::*;

use crate::game_data::{Assets, GameRelease};

verus! {

/// The two keys this service caches under.
#[derive(Debug, Clone, Copy, PartialEq, Eq, Structural)]
pub enum CacheKey {
    LatestUpdaterRelease,
    LatestGameRelease,
}

/// A cached resolution result.
#[derive(Debug)]
pub enum CachedReleased {
    Updater(Assets),
    Game(GameRelease),
}

/// The TTL cache: one slot per key, each remembering when it was stored.
#[derive(Debug)]
pub struct ReleaseCache {
    lifespan_secs: u64,
    updater: Option<(u64, CachedReleased)>,
    game: Option<(u64, CachedReleased)>,
}

impl ReleaseCache {
    /// Seconds a stored entry stays valid.
    pub closed spec fn spec_lifespan(&self) -> u64 {
        self.lifespan_secs
    }

    /// The slot for `key`: the store time and the value, if any.
    pub closed spec fn spec_entry(&self, key: CacheKey) -> Option<(u64, CachedReleased)> {
        match key {
            CacheKey::LatestUpdaterRelease => self.updater,
            CacheKey::LatestGameRelease => self.game,
        }
    }

    /// What a lookup at `now` serves: the stored value while it is younger
    /// than the lifespan, nothing otherwise.
    pub open spec fn serves(&self, key: CacheKey, now: u64) -> Option<CachedReleased> {
        match self.spec_entry(key) {
            Some(e) => if now < e.0 + self.spec_lifespan() {
                Some(e.1)
            } else {
                None
            },
            None => None,
        }
    }

    /// An empty cache with the given lifespan.
    pub fn new(lifespan_secs: u64) -> (r: ReleaseCache)
        ensures
            r.spec_lifespan() == lifespan_secs,
            forall|key: CacheKey| r.spec_entry(key) is None,
    {
        ReleaseCache { lifespan_secs, updater: None, game: None }
    }

    /// Serve the entry under `key` if it is still valid at `now`; `None`
    /// demands a fresh fetch.
    pub fn lookup(&self, key: CacheKey, now: u64) -> (r: Option<&CachedReleased>)
        ensures
            match r {
                Some(v) => self.serves(key, now) == Some(*v),
                None => self.serves(key, now) is None,
            },
    {
        let entry = match key {
            CacheKey::LatestUpdaterRelease => &self.updater,
            CacheKey::LatestGameRelease => &self.game,
        };
        match entry {
            Some(e) => {
                let valid = if self.lifespan_secs > u64::MAX - e.0 {
                    // the window extends past the clock's range
                    true
                } else {
                    now < e.0 + self.lifespan_secs
                };
                if valid {
                    Some(&e.1)
                } else {
                    None
                }
            },
            None => None,
        }
    }

    /// Decide what a finished fetch cycle leaves under `key`: a successful
    /// fetch replaces the entry at `now`; a failed one stores nothing — no
    /// negative caching — so the whole cache is exactly the value it was,
    /// any prior entry keeps serving through its window, and the failure is
    /// handed back for the caller to surface.
    pub fn record_fetch<E>(
        &mut self,
        key: CacheKey,
        outcome: Result<CachedReleased, E>,
        now: u64,
    ) -> (r: Result<(), E>)
        ensures
            outcome matches Ok(v) ==> {
                &&& r is Ok
                &&& final(self).spec_lifespan() == old(self).spec_lifespan()
                &&& (final(self).spec_entry(key) matches Some(e) && e.0 == now && e.1 == v)
                &&& forall|other: CacheKey|
                    other != key ==> final(self).spec_entry(other) == old(self).spec_entry(other)
            },
            outcome matches Err(e) ==> (r matches Err(e2) && e2 == e && *final(self) == *old(
                self,
            )),
    {
        match outcome {
            Ok(value) => {
                self.store(key, value, now);
                Ok(())
            },
            Err(e) => Err(e),
        }
    }

    /// Record a freshly fetched value under `key` at `now`, replacing any
    /// earlier entry; the other key is untouched.
    pub fn store(&mut self, key: CacheKey, value: CachedReleased, now: u64)
        ensures
            final(self).spec_lifespan() == old(self).spec_lifespan(),
            final(self).spec_entry(key) matches Some(e) && e.0 == now && e.1 == value,
            forall|other: CacheKey|
                other != key ==> final(self).spec_entry(other) == old(self).spec_entry(other),
    {
        match key {
            CacheKey::LatestUpdaterRelease => {
                self.updater = Some((now, value));
            },
            CacheKey::LatestGameRelease => {
                self.game = Some((now, value));
            },
        }
    }
}

/// Within the lifespan window after a successful fetch was stored, every
/// lookup under that key serves exactly the stored value: concurrent callers
/// in the window observe the same cached value, and none of them decides a
/// second fetch. A failed fetch stores nothing, so it leaves the cache — and
/// therefore every later lookup — exactly as it was.
/// A lookup that demanded a fetch keeps demanding one at every later time,
/// until something is stored under the key: a failed fetch stores nothing
/// and leaves the cache the value it was, so the next request retries the
/// producer at once.
pub proof fn lemma_unserved_key_stays_unserved(
    cache: ReleaseCache,
    key: CacheKey,
    now: u64,
    later: u64,
)
    requires
        cache.serves(key, now) is None,
        now <= later,
    ensures
        cache.serves(key, later) is None,
{
}

pub proof fn lemma_cache_serves_stored(
    cache: ReleaseCache,
    key: CacheKey,
    value: CachedReleased,
    stored_at: u64,
    now: u64,
)
    requires
        cache.spec_entry(key) matches Some(e) && e.0 == stored_at && e.1 == value,
        stored_at <= now < stored_at + cache.spec_lifespan(),
    ensures
        cache.serves(key, now) == Some(value),
{
}

} // verus!
