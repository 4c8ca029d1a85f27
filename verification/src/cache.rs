//! Per-backend cache of the last catalog seen, so that an unchanged
//! catalog fetched again leaves the registry alone.

use crate::config::FederationSettings;
use dashmap::DashMap;
use vstd::prelude::*;

verus! {

/// What is remembered of the last catalog fetched from one backend.
#[derive(Debug, Clone)]
pub struct ToolCacheEntry {
    /// Content hash of the raw tool array.
    pub spec_hash: String,
    /// Time at which the entry stops being live.
    pub expires_at: u64,
    pub tool_count: usize,
}

pub struct ToolCacheEntryView {
    pub spec_hash: Seq<char>,
    pub expires_at: u64,
    pub tool_count: usize,
}

impl View for ToolCacheEntry {
    type V = ToolCacheEntryView;

    open spec fn view(&self) -> ToolCacheEntryView {
        ToolCacheEntryView {
            spec_hash: self.spec_hash@,
            expires_at: self.expires_at,
            tool_count: self.tool_count,
        }
    }
}

/// Milliseconds a cached catalog stays live; 0 when caching is off.
pub open spec fn cache_ttl_ms(settings: FederationSettings) -> int {
    settings.tool_cache_ttl_seconds * 1000
}

/// Whether caching is on.
pub open spec fn caching(settings: FederationSettings) -> bool {
    settings.tool_cache_ttl_seconds > 0
}

/// Whether a catalog with content hash `hash` fetched at `now` is the one
/// remembered: caching is on and a live entry with the same hash exists.
pub open spec fn is_cache_hit(
    cache: Map<Seq<char>, ToolCacheEntryView>,
    id: Seq<char>,
    hash: Seq<char>,
    now: u64,
    settings: FederationSettings,
) -> bool {
    &&& caching(settings)
    &&& cache.contains_key(id)
    &&& cache[id].spec_hash == hash
    &&& cache[id].expires_at > now
}

/// The time an entry written at `now` expires: `now` plus the lifetime,
/// held within `u64`.
pub open spec fn expiry(now: u64, settings: FederationSettings) -> u64 {
    if now + cache_ttl_ms(settings) > u64::MAX {
        u64::MAX
    } else {
        (now + cache_ttl_ms(settings)) as u64
    }
}

/// The cache after a hit at `now`: the entry's expiry slides forward.
pub open spec fn cache_after_hit(
    cache: Map<Seq<char>, ToolCacheEntryView>,
    id: Seq<char>,
    now: u64,
    settings: FederationSettings,
) -> Map<Seq<char>, ToolCacheEntryView> {
    cache.insert(id, ToolCacheEntryView { expires_at: expiry(now, settings), ..cache[id] })
}

/// The cache after a miss at `now` that registered `tool_count` tools: a
/// fresh entry replaces the old one when caching is on.
pub open spec fn cache_after_miss(
    cache: Map<Seq<char>, ToolCacheEntryView>,
    id: Seq<char>,
    hash: Seq<char>,
    tool_count: usize,
    now: u64,
    settings: FederationSettings,
) -> Map<Seq<char>, ToolCacheEntryView> {
    if caching(settings) {
        cache.insert(
            id,
            ToolCacheEntryView { spec_hash: hash, expires_at: expiry(now, settings), tool_count },
        )
    } else {
        cache
    }
}

/// The cache entries held, by backend id.
pub uninterp spec fn cache_held(cache: DashMap<String, ToolCacheEntry>) -> Map<
    Seq<char>,
    ToolCacheEntry,
>;

pub open spec fn no_entries() -> Map<Seq<char>, ToolCacheEntry> {
    Map::empty()
}

/// The entries held, each as its view.
pub open spec fn cache_view(cache: DashMap<String, ToolCacheEntry>) -> Map<
    Seq<char>,
    ToolCacheEntryView,
> {
    Map::new(
        |id: Seq<char>| cache_held(cache).contains_key(id),
        |id: Seq<char>| cache_held(cache)[id]@,
    )
}

/// `DashMap::new`: a cache that holds nothing.
#[verifier::external_body]
pub(crate) fn cache_new() -> (cache: DashMap<String, ToolCacheEntry>)
    ensures
        cache_held(cache) == no_entries(),
{
    DashMap::new()
}

/// `DashMap::get`, the entry copied out.
#[verifier::external_body]
pub(crate) fn cache_get(cache: &DashMap<String, ToolCacheEntry>, id: &str) -> (found: Option<
    ToolCacheEntry,
>)
    ensures
        found is Some <==> cache_held(*cache).contains_key(id@),
        found matches Some(entry) ==> cache_held(*cache)[id@] == entry,
{
    cache.get(id).map(|entry| entry.value().clone())
}

/// `DashMap::insert`: the entry under the id is added or replaced, the
/// others stay.
#[verifier::external_body]
pub(crate) fn cache_insert(
    cache: &mut DashMap<String, ToolCacheEntry>,
    id: String,
    entry: ToolCacheEntry,
)
    ensures
        cache_held(*final(cache)) == cache_held(*old(cache)).insert(id@, entry),
{
    cache.insert(id, entry);
}

/// `DashMap::clear`: nothing is held afterwards.
#[verifier::external_body]
pub(crate) fn cache_clear(cache: &mut DashMap<String, ToolCacheEntry>)
    ensures
        cache_held(*final(cache)) == no_entries(),
{
    cache.clear();
}

/// The time an entry written at `now` expires.
pub fn expiry_at(now: u64, settings: &FederationSettings) -> (at: u64)
    ensures
        at == expiry(now, *settings),
{
    match settings.tool_cache_ttl_seconds.checked_mul(1000) {
        Some(lifetime) => now.saturating_add(lifetime),
        None => u64::MAX,
    }
}

/// Looks a fetched catalog up at `now`. On a hit the entry's expiry slides
/// forward and the remembered tool count is returned; otherwise the cache is
/// left alone.
pub fn check_cache(
    cache: &mut DashMap<String, ToolCacheEntry>,
    id: &str,
    hash: &String,
    now: u64,
    settings: &FederationSettings,
) -> (hit: Option<usize>)
    ensures
        hit is Some <==> is_cache_hit(cache_view(*old(cache)), id@, hash@, now, *settings),
        hit matches Some(count) ==> count == cache_view(*old(cache))[id@].tool_count,
        cache_view(*final(cache)) == if hit is Some {
            cache_after_hit(cache_view(*old(cache)), id@, now, *settings)
        } else {
            cache_view(*old(cache))
        },
{
    if settings.tool_cache_ttl_seconds == 0 {
        return None;
    }
    match cache_get(cache, id) {
        Some(entry) => {
            if entry.spec_hash == *hash && entry.expires_at > now {
                let count = entry.tool_count;
                let renewed = ToolCacheEntry {
                    spec_hash: entry.spec_hash,
                    expires_at: expiry_at(now, settings),
                    tool_count: count,
                };
                cache_insert(cache, id.to_owned(), renewed);
                assert(cache_view(*cache) =~= cache_after_hit(
                    cache_view(*old(cache)),
                    id@,
                    now,
                    *settings,
                ));
                Some(count)
            } else {
                None
            }
        },
        None => None,
    }
}

/// Remembers the catalog just registered, when caching is on.
pub fn remember(
    cache: &mut DashMap<String, ToolCacheEntry>,
    id: &str,
    hash: String,
    tool_count: usize,
    now: u64,
    settings: &FederationSettings,
)
    ensures
        cache_view(*final(cache)) == cache_after_miss(
            cache_view(*old(cache)),
            id@,
            hash@,
            tool_count,
            now,
            *settings,
        ),
{
    if settings.tool_cache_ttl_seconds > 0 {
        let entry = ToolCacheEntry { spec_hash: hash, expires_at: expiry_at(now, settings), tool_count };
        cache_insert(cache, id.to_owned(), entry);
        assert(cache_view(*cache) =~= cache_after_miss(
            cache_view(*old(cache)),
            id@,
            hash@,
            tool_count,
            now,
            *settings,
        ));
    }
}

/// A catalog remembered at `earlier` is a hit when the same catalog is
/// fetched again before the entry expires, and the hit reports the tool
/// count that was remembered.
pub proof fn lemma_same_catalog_hits(
    cache: Map<Seq<char>, ToolCacheEntryView>,
    id: Seq<char>,
    hash: Seq<char>,
    tool_count: usize,
    earlier: u64,
    now: u64,
    settings: FederationSettings,
)
    requires
        caching(settings),
        now < expiry(earlier, settings),
    ensures
        is_cache_hit(
            cache_after_miss(cache, id, hash, tool_count, earlier, settings),
            id,
            hash,
            now,
            settings,
        ),
        cache_after_miss(cache, id, hash, tool_count, earlier, settings)[id].tool_count
            == tool_count,
{
}

/// With caching off nothing is ever a hit.
pub proof fn lemma_no_hit_without_caching(
    cache: Map<Seq<char>, ToolCacheEntryView>,
    id: Seq<char>,
    hash: Seq<char>,
    now: u64,
    settings: FederationSettings,
)
    requires
        settings.tool_cache_ttl_seconds == 0,
    ensures
        !is_cache_hit(cache, id, hash, now, settings),
{
}

} // verus!
