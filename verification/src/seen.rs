//! The seen-set of a dissemination protocol: which message identifiers it
//! has met, and when. The set lives in a `dashmap::DashMap`, so that an
//! embedding may share it between a handler and a sweeper; the library
//! reaches it through exclusive references only.

use vstd::prelude::*;
use dashmap::DashMap;
use std::collections::hash_map::RandomState;

verus! {

/// Seconds for which an identifier is remembered.
pub const SEEN_TTL_SECS: u64 = 300;

/// Seconds between two sweeps of a seen-set.
pub const SWEEP_INTERVAL_SECS: u64 = 60;

#[verifier::external_type_specification]
#[verifier::external_body]
#[verifier::reject_recursive_types(K)]
#[verifier::reject_recursive_types(V)]
#[verifier::reject_recursive_types(S)]
pub struct ExDashMap<K, V, S>(DashMap<K, V, S>);

/// What a map from message identifiers to instants holds.
pub uninterp spec fn seen_entries(map: DashMap<u64, u64, RandomState>) -> Map<u64, u64>;

/// An entry made at `at` is still remembered at `now`: less than
/// `SEEN_TTL_SECS` seconds have passed. An entry dated after `now` counts as
/// just made.
pub open spec fn is_fresh(at: u64, now: u64) -> bool {
    now - at < SEEN_TTL_SECS
}

/// Whether an entry made at `at` is still remembered at `now`.
pub fn fresh(at: u64, now: u64) -> (r: bool)
    ensures
        r == is_fresh(at, now),
{
    now < at || now - at < SEEN_TTL_SECS
}

/// The entries of `entries` that are still remembered at `now`.
pub open spec fn fresh_entries(entries: Map<u64, u64>, now: u64) -> Map<u64, u64> {
    Map::new(|id: u64| entries.dom().contains(id) && is_fresh(entries[id], now), |id: u64| entries[id])
}

/// What a seen-set holds after it has met `id` at `now`: a known identifier
/// keeps its first instant, a new one is recorded.
pub open spec fn recorded(entries: Map<u64, u64>, id: u64, now: u64) -> Map<u64, u64> {
    if entries.dom().contains(id) {
        entries
    } else {
        entries.insert(id, now)
    }
}

/// Calls `DashMap::new`, which makes a map without entries.
#[verifier::external_body]
fn dashmap_new() -> (map: DashMap<u64, u64, RandomState>)
    ensures
        seen_entries(map) =~= Map::empty(),
{
    DashMap::new()
}

/// Calls `DashMap::contains_key`.
#[verifier::external_body]
fn dashmap_contains(map: &DashMap<u64, u64, RandomState>, id: u64) -> (found: bool)
    ensures
        found == seen_entries(*map).dom().contains(id),
{
    map.contains_key(&id)
}

/// Calls `DashMap::insert`, which stores the value under the key and
/// replaces what was there.
#[verifier::external_body]
fn dashmap_insert(map: &mut DashMap<u64, u64, RandomState>, id: u64, at: u64)
    ensures
        seen_entries(*final(map)) == seen_entries(*old(map)).insert(id, at),
{
    map.insert(id, at);
}

/// Calls `DashMap::retain` with the freshness test, which keeps exactly the
/// entries that pass it and leaves their values alone.
#[verifier::external_body]
fn dashmap_retain_fresh(map: &mut DashMap<u64, u64, RandomState>, now: u64)
    ensures
        seen_entries(*final(map)) == fresh_entries(seen_entries(*old(map)), now),
{
    map.retain(|_, at| fresh(*at, now));
}

/// The identifiers that a protocol has met, each with the instant (in
/// seconds) at which it was first met.
pub struct SeenSet {
    map: DashMap<u64, u64, RandomState>,
}

impl SeenSet {
    /// The identifiers met, each with its instant.
    pub closed spec fn entries(&self) -> Map<u64, u64> {
        seen_entries(self.map)
    }

    /// Whether `id` has been met.
    pub open spec fn has(&self, id: u64) -> bool {
        self.entries().dom().contains(id)
    }

    /// An empty seen-set.
    pub fn new() -> (s: SeenSet)
        ensures
            s.entries() == Map::<u64, u64>::empty(),
    {
        SeenSet { map: dashmap_new() }
    }

    /// Whether `id` has been met.
    pub fn contains(&self, id: u64) -> (found: bool)
        ensures
            found == self.has(id),
    {
        dashmap_contains(&self.map, id)
    }

    /// Records that `id` is met at `now`.
    pub fn insert(&mut self, id: u64, now: u64)
        ensures
            final(self).entries() == old(self).entries().insert(id, now),
    {
        dashmap_insert(&mut self.map, id, now);
    }

    /// Meets `id` at `now`, and tells whether it is new. A known identifier
    /// keeps its first instant.
    pub fn check_and_record(&mut self, id: u64, now: u64) -> (is_new: bool)
        ensures
            is_new == !old(self).has(id),
            final(self).entries() == recorded(old(self).entries(), id, now),
            final(self).has(id),
    {
        if self.contains(id) {
            false
        } else {
            self.insert(id, now);
            true
        }
    }

    /// Forgets every identifier met `SEEN_TTL_SECS` seconds or more before
    /// `now`.
    pub fn sweep(&mut self, now: u64)
        ensures
            final(self).entries() == fresh_entries(old(self).entries(), now),
    {
        dashmap_retain_fresh(&mut self.map, now);
    }
}

} // verus!
