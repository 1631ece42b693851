//! In-memory transposition cache of engine results, keyed by Zobrist hash and
//! checked against the normalized FEN.

use vstd::prelude::*;
use vstd::rwlock::{RwLock, RwLockPredicate};
use std::collections::HashMap;
use std::sync::Arc;
use crate::model::{EngineMetadata, EngineMetadataModel, Evaluation};
use crate::text::{chars_of, normalize_chars, normalized_fen};
use crate::model::Game;
use crate::scheduler::{fill_games, games_filled_from, jobs_view, pending_jobs, uncached, AnalysisJob};

verus! {

broadcast use vstd::std_specs::hash::group_hash_axioms;

#[derive(Debug, Clone)]
pub struct CacheEntry {
    pub fen: String,
    pub evaluation: Evaluation,
    pub metadata: EngineMetadata,
}

pub struct CacheEntryModel {
    pub fen: Seq<char>,
    pub evaluation: Evaluation,
    pub metadata: EngineMetadataModel,
}

impl View for CacheEntry {
    type V = CacheEntryModel;

    open spec fn view(&self) -> CacheEntryModel {
        CacheEntryModel { fen: self.fen@, evaluation: self.evaluation, metadata: self.metadata@ }
    }
}

/// A cache of analysed positions.
pub struct PositionCache {
    entries: HashMap<u64, CacheEntry>,
}

impl View for PositionCache {
    type V = Map<u64, CacheEntryModel>;

    closed spec fn view(&self) -> Map<u64, CacheEntryModel> {
        self.entries@.map_values(|e: CacheEntry| e@)
    }
}

/// The first four FEN fields of `fen`, joined by single spaces.
pub fn normalize_fen(fen: &str) -> (r: String)
    ensures
        r@ == normalized_fen(fen@),
{
    let c = chars_of(fen);
    normalize_chars(c.as_slice())
}

/// The cached result for `key`, when the entry there is for the same position
/// (equal normalized FEN) and was searched at least `depth` plies deep.
pub open spec fn cached_result(c: Map<u64, CacheEntryModel>, key: u64, fen: Seq<char>, depth: u32) -> Option<(Evaluation, EngineMetadataModel)> {
    if c.contains_key(key) && normalized_fen(c[key].fen) == normalized_fen(fen) && c[key].metadata.depth >= depth {
        Some((c[key].evaluation, c[key].metadata))
    } else {
        None
    }
}

/// The cache after offering a result: an entry for the same position that was
/// searched at least as deep stays; otherwise the new result takes the key.
pub open spec fn cache_after_insert(c: Map<u64, CacheEntryModel>, key: u64, e: CacheEntryModel) -> Map<u64, CacheEntryModel> {
    if c.contains_key(key) && normalized_fen(c[key].fen) == normalized_fen(e.fen) && c[key].metadata.depth >= e.metadata.depth {
        c
    } else {
        c.insert(key, e)
    }
}

pub open spec fn result_view(r: Option<(Evaluation, EngineMetadata)>) -> Option<(Evaluation, EngineMetadataModel)> {
    match r {
        Some(x) => Some((x.0, x.1@)),
        None => None,
    }
}

impl PositionCache {
    pub fn new() -> (r: Self)
        ensures
            r@ == Map::<u64, CacheEntryModel>::empty(),
    {
        let r = PositionCache { entries: HashMap::new() };
        assert(r@ =~= Map::<u64, CacheEntryModel>::empty());
        r
    }

    /// The cached evaluation and engine data for a position (see [`cached_result`]).
    pub fn lookup(&self, hash: u64, fen: &str, requested_depth: u32) -> (r: Option<(Evaluation, EngineMetadata)>)
        ensures
            result_view(r) == cached_result(self@, hash, fen@, requested_depth),
    {
        match self.entries.get(&hash) {
            Some(entry) => {
                let a = normalize_fen(entry.fen.as_str());
                let b = normalize_fen(fen);
                if a == b && entry.metadata.depth >= requested_depth {
                    Some((entry.evaluation, entry.metadata.duplicate()))
                } else {
                    None
                }
            },
            None => None,
        }
    }

    /// Offers a result to the cache (see [`cache_after_insert`]).
    pub fn insert(&mut self, hash: u64, fen: String, evaluation: Evaluation, metadata: EngineMetadata)
        ensures
            final(self)@ == cache_after_insert(old(self)@, hash, CacheEntryModel { fen: fen@, evaluation, metadata: metadata@ }),
    {
        let keep = match self.entries.get(&hash) {
            Some(existing) => {
                let a = normalize_fen(existing.fen.as_str());
                let b = normalize_fen(fen.as_str());
                a == b && existing.metadata.depth >= metadata.depth
            },
            None => false,
        };
        if keep {
            return;
        }
        let ghost e = CacheEntry { fen, evaluation, metadata };
        self.entries.insert(hash, CacheEntry { fen, evaluation, metadata });
        assert(self@ =~= old(self)@.insert(hash, e@));
    }
}

/// A result offered for a position is found again for that position at every
/// requested depth up to the depth it was searched at; what is found was searched
/// at least that deep, and it is the offered result itself unless an entry for the
/// same position searched at least as deep was already there.
pub proof fn law_insert_then_lookup(
    c: Map<u64, CacheEntryModel>,
    key: u64,
    e: CacheEntryModel,
    fen: Seq<char>,
    depth: u32,
)
    requires
        normalized_fen(fen) == normalized_fen(e.fen),
        depth <= e.metadata.depth,
    ensures
        cached_result(cache_after_insert(c, key, e), key, fen, depth) matches Some(r)
            && r.1.depth >= e.metadata.depth,
        !(c.contains_key(key) && normalized_fen(c[key].fen) == normalized_fen(e.fen)
            && c[key].metadata.depth >= e.metadata.depth) ==> cached_result(
            cache_after_insert(c, key, e),
            key,
            fen,
            depth,
        ) == Some((e.evaluation, e.metadata)),
{
}

/// Offering a result for the position that a successful lookup found never makes
/// that lookup fail: cached depths of a position only grow.
pub proof fn law_insert_keeps_hits(
    c: Map<u64, CacheEntryModel>,
    key: u64,
    e: CacheEntryModel,
    fen: Seq<char>,
    depth: u32,
)
    requires
        cached_result(c, key, fen, depth) is Some,
        normalized_fen(e.fen) == normalized_fen(fen),
    ensures
        cached_result(cache_after_insert(c, key, e), key, fen, depth) is Some,
{
}

/// Offering a result under one key leaves lookups under every other key unchanged.
pub proof fn law_insert_other_key(
    c: Map<u64, CacheEntryModel>,
    key: u64,
    e: CacheEntryModel,
    other: u64,
    fen: Seq<char>,
    depth: u32,
)
    requires
        other != key,
    ensures
        cached_result(cache_after_insert(c, key, e), other, fen, depth) == cached_result(c, other, fen, depth),
{
}

/// A result is only ever given for the position it was stored for: when the entry
/// under a key is for another position (a hash collision), the lookup misses.
pub proof fn law_collision_is_a_miss(c: Map<u64, CacheEntryModel>, key: u64, fen: Seq<char>, depth: u32)
    requires
        c.contains_key(key),
        normalized_fen(c[key].fen) != normalized_fen(fen),
    ensures
        cached_result(c, key, fen, depth) is None,
{
}

/// A lookup that succeeds gives the stored evaluation of that same position,
/// searched at least as deep as asked.
pub proof fn law_hit_is_the_stored_position(c: Map<u64, CacheEntryModel>, key: u64, fen: Seq<char>, depth: u32)
    requires
        cached_result(c, key, fen, depth) is Some,
    ensures
        c.contains_key(key),
        normalized_fen(c[key].fen) == normalized_fen(fen),
        cached_result(c, key, fen, depth) == Some((c[key].evaluation, c[key].metadata)),
        c[key].metadata.depth >= depth,
{
}

/// Caches may hold any content.
pub struct AnyCache;

impl RwLockPredicate<PositionCache> for AnyCache {
    open spec fn inv(self, v: PositionCache) -> bool {
        true
    }
}

/// A position cache shared between workers behind a reader-writer lock.
#[derive(Clone)]
pub struct SharedPositionCache {
    inner: Arc<RwLock<PositionCache, AnyCache>>,
}

impl SharedPositionCache {
    pub fn new() -> (r: Self) {
        SharedPositionCache { inner: Arc::new(RwLock::new(PositionCache::new(), Ghost(AnyCache))) }
    }

    /// A lookup in the cache as it stands at the moment of the call; other
    /// holders may change it at any time, so the result is that of some state.
    pub fn lookup(&self, hash: u64, fen: &str, requested_depth: u32) -> (r: Option<(Evaluation, EngineMetadata)>)
        ensures
            exists|c: Map<u64, CacheEntryModel>| result_view(r) == cached_result(c, hash, fen@, requested_depth),
            r matches Some(x) ==> x.1.depth >= requested_depth,
    {
        let handle = self.inner.acquire_read();
        let cache = handle.borrow();
        let r = cache.lookup(hash, fen, requested_depth);
        let ghost c = cache@;
        handle.release_read();
        r
    }

    /// The jobs the cache, as it stands at one moment, does not answer at `depth`.
    pub fn pending_jobs(&self, jobs: &Vec<AnalysisJob>, depth: u32) -> (r: Vec<AnalysisJob>)
        ensures
            exists|c: Map<u64, CacheEntryModel>| jobs_view(r@) == uncached(jobs_view(jobs@), c, depth),
    {
        let handle = self.inner.acquire_read();
        let cache = handle.borrow();
        let r = pending_jobs(jobs, cache, depth);
        let ghost c = cache@;
        handle.release_read();
        r
    }

    /// Fills the evaluations of every game from the cache as it stands at one moment.
    pub fn fill_games(&self, games: &mut Vec<Game>, depth: u32)
        ensures
            final(games)@.len() == old(games)@.len(),
            exists|c: Map<u64, CacheEntryModel>| #[trigger] games_filled_from(old(games)@, final(games)@, c, depth),
    {
        let handle = self.inner.acquire_read();
        let cache = handle.borrow();
        fill_games(games, cache, depth);
        let ghost c = cache@;
        assert(games_filled_from(old(games)@, games@, c, depth));
        handle.release_read();
    }

    /// Offers a result to the cache under the write lock.
    pub fn insert(&self, hash: u64, fen: String, evaluation: Evaluation, metadata: EngineMetadata) {
        let (mut cache, handle) = self.inner.acquire_write();
        cache.insert(hash, fen, evaluation, metadata);
        handle.release_write(cache);
    }
}

} // verus!
