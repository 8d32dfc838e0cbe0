//! In-memory storage: buckets of variants, and the cache that holds them.
use moka::future::Cache as MokaCache;
use moka::future::CacheBuilder;
use std::sync::Arc;
use std::time::Duration;
use trillium_http::Headers;
use vstd::prelude::*;

use crate::headers::{clone_trailers, trailers_view, Fields};
use crate::limits::{Limits, MAX_EXPIRY_NANOS};
use crate::policy::{CachePolicy, PolicyView, Selection};
use crate::sharing::share;
use crate::storage::{CacheKey, KeyView};
use crate::time::{Span, NANOS_PER_SEC};

verus! {

/// The default limit on stored body bytes: 256 MiB.
pub const DEFAULT_MAX_CAPACITY_BYTES: u64 = 256 * 1024 * 1024;

/// One stored response.
pub struct Variant {
    pub policy: Arc<CachePolicy>,
    pub body: Arc<Vec<u8>>,
    pub trailers: Option<Headers>,
}

/// All the variants that are stored under one key. They are evicted together.
pub type Bucket = Arc<Vec<Variant>>;

/// What a stored response is.
#[verifier::ext_equal]
pub struct VariantView {
    pub policy: PolicyView,
    pub body: Seq<u8>,
    pub trailers: Option<Fields>,
}

impl View for Variant {
    type V = VariantView;

    open spec fn view(&self) -> VariantView {
        VariantView {
            policy: self.policy@,
            body: self.body@,
            trailers: trailers_view(self.trailers),
        }
    }
}

/// The variants of a vector, by what they are.
pub open spec fn variant_views(variants: Seq<Variant>) -> Seq<VariantView> {
    variants.map_values(|variant: Variant| variant@)
}

/// The variants that another selection than `vary` chose, in order.
pub open spec fn others(variants: Seq<VariantView>, vary: Selection) -> Seq<VariantView>
    decreases variants.len(),
{
    if variants.len() == 0 {
        Seq::empty()
    } else {
        let rest = others(variants.drop_last(), vary);
        if variants.last().policy.vary == vary {
            rest
        } else {
            rest.push(variants.last())
        }
    }
}

/// A bucket after a response was stored in it: it takes the place of those that the same selection
/// chose.
pub open spec fn upserted(variants: Seq<VariantView>, new: VariantView) -> Seq<VariantView> {
    others(variants, new.policy.vary).push(new)
}

/// The position of the first variant that `vary` chose, or the number of variants.
pub open spec fn variant_index(variants: Seq<VariantView>, vary: Selection) -> nat
    decreases variants.len(),
{
    if variants.len() == 0 || variants[0].policy.vary == vary {
        0
    } else {
        1 + variant_index(variants.skip(1), vary)
    }
}

/// A bucket after a policy was refreshed in it; `None` where no variant is the policy's.
pub open spec fn refreshed_bucket(variants: Seq<VariantView>, policy: PolicyView) -> Option<
    Seq<VariantView>,
> {
    let index = variant_index(variants, policy.vary) as int;
    if index < variants.len() {
        Some(variants.update(index, VariantView { policy, ..variants[index] }))
    } else {
        None
    }
}

/// The body bytes in a bucket.
pub open spec fn body_bytes(variants: Seq<VariantView>) -> nat
    decreases variants.len(),
{
    if variants.len() == 0 {
        0
    } else {
        body_bytes(variants.drop_last()) + variants.last().body.len()
    }
}

/// The weight of a bucket: its body bytes, as far as a weight goes.
pub open spec fn bucket_weight(variants: Seq<VariantView>) -> u32 {
    if body_bytes(variants) <= u32::MAX {
        body_bytes(variants) as u32
    } else {
        u32::MAX
    }
}

impl Clone for Variant {
    fn clone(&self) -> (r: Variant)
        ensures
            r@ == self@,
    {
        Variant {
            policy: share(&self.policy),
            body: share(&self.body),
            trailers: clone_trailers(&self.trailers),
        }
    }
}

proof fn lemma_body_bytes_grow(variants: Seq<VariantView>, n: int)
    requires
        0 <= n <= variants.len(),
    ensures
        body_bytes(variants.take(n)) <= body_bytes(variants),
    decreases variants.len(),
{
    if n < variants.len() {
        lemma_body_bytes_grow(variants.drop_last(), n);
        assert(variants.drop_last().take(n) =~= variants.take(n));
    } else {
        assert(variants.take(n) =~= variants);
    }
}

/// The weight of a bucket.
pub fn weigh_bucket(_key: &CacheKey, bucket: &Bucket) -> (r: u32)
    ensures
        r == bucket_weight(variant_views(bucket@)),
{
    let variants: &Vec<Variant> = bucket;
    let ghost all = variant_views(variants@);
    let mut total: u64 = 0;
    let mut i: usize = 0;
    while i < variants.len()
        invariant
            i <= variants.len(),
            all == variant_views(variants@),
            all == variant_views(bucket@),
            total <= u32::MAX,
            total == body_bytes(all.take(i as int)),
        decreases variants.len() - i,
    {
        let len: usize = variants[i].body.len();
        proof {
            assert(all.take(i as int + 1).drop_last() =~= all.take(i as int));
            assert(all[i as int] == variants@[i as int]@);
            lemma_body_bytes_grow(all, i as int + 1);
        }
        if len as u64 > u32::MAX as u64 - total {
            return u32::MAX;
        }
        total = total + len as u64;
        i += 1;
    }
    assert(all.take(all.len() as int) =~= all);
    total as u32
}

/// A bucket after a response was stored in it.
pub fn upsert(variants: &Vec<Variant>, new: Variant) -> (r: Vec<Variant>)
    ensures
        variant_views(r@) == upserted(variant_views(variants@), new@),
{
    let mut out: Vec<Variant> = Vec::new();
    let ghost all = variant_views(variants@);
    let mut i: usize = 0;
    assert(variant_views(out@) =~= others(all.take(0), new@.policy.vary));
    while i < variants.len()
        invariant
            i <= variants.len(),
            all == variant_views(variants@),
            variant_views(out@) == others(all.take(i as int), new@.policy.vary),
        decreases variants.len() - i,
    {
        proof {
            assert(all.take(i as int + 1).drop_last() =~= all.take(i as int));
            assert(all[i as int] == variants@[i as int]@);
        }
        if !variants[i].policy.same_variant_as(&new.policy) {
            let ghost before = out@;
            let kept = variants[i].clone();
            out.push(kept);
            assert(variant_views(out@) =~= variant_views(before).push(all[i as int]));
        }
        i += 1;
    }
    assert(all.take(all.len() as int) =~= all);
    let ghost before = out@;
    out.push(new);
    assert(variant_views(out@) =~= variant_views(before).push(new@));
    out
}

/// The position of the first variant that the policy's selection chose.
pub fn find_variant(variants: &Vec<Variant>, policy: &CachePolicy) -> (r: usize)
    ensures
        r == variant_index(variant_views(variants@), policy@.vary),
        r <= variants.len(),
{
    let ghost all = variant_views(variants@);
    let mut i: usize = 0;
    assert(all.skip(0) =~= all);
    while i < variants.len()
        invariant
            i <= variants.len(),
            all == variant_views(variants@),
            variant_index(all, policy@.vary) == i + variant_index(
                all.skip(i as int),
                policy@.vary,
            ),
        decreases variants.len() - i,
    {
        assert(all.skip(i as int)[0] == variants@[i as int]@);
        if variants[i].policy.same_variant_as(policy) {
            return i;
        }
        assert(all.skip(i as int).skip(1) =~= all.skip(i as int + 1));
        i += 1;
    }
    i
}

/// A bucket after a policy was refreshed in it; `None` where no variant is the policy's.
pub fn refresh(variants: &Vec<Variant>, policy: &Arc<CachePolicy>) -> (r: Option<Vec<Variant>>)
    ensures
        match r {
            Some(bucket) => refreshed_bucket(variant_views(variants@), policy@) == Some(
                variant_views(bucket@),
            ),
            None => refreshed_bucket(variant_views(variants@), policy@) is None,
        },
{
    let index: usize = find_variant(variants, policy);
    if index >= variants.len() {
        return None;
    }
    let ghost all = variant_views(variants@);
    let ghost new = VariantView { policy: policy@, ..all[index as int] };
    let ghost target = all.update(index as int, new);
    let mut out: Vec<Variant> = Vec::new();
    let mut i: usize = 0;
    assert(variant_views(out@) =~= target.take(0));
    while i < variants.len()
        invariant
            i <= variants.len(),
            index < variants.len(),
            all == variant_views(variants@),
            new == (VariantView { policy: policy@, ..all[index as int] }),
            target == all.update(index as int, new),
            variant_views(out@) == target.take(i as int),
        decreases variants.len() - i,
    {
        let ghost before = out@;
        let variant = if i == index {
            Variant {
                policy: share(policy),
                body: share(&variants[i].body),
                trailers: clone_trailers(&variants[i].trailers),
            }
        } else {
            variants[i].clone()
        };
        proof {
            assert(all[i as int] == variants@[i as int]@);
            assert(variant@ == target[i as int]);
            assert(target.take(i as int + 1) =~= target.take(i as int).push(target[i as int]));
        }
        out.push(variant);
        assert(variant_views(out@) =~= variant_views(before).push(target[i as int]));
        i += 1;
    }
    assert(target.take(target.len() as int) =~= target);
    Some(out)
}

/// The bucket that takes the place of `existing` when a response is committed.
pub fn committed(existing: Option<&Bucket>, new: Variant) -> (r: Bucket)
    ensures
        variant_views(r@) == upserted(
            match existing {
                Some(bucket) => variant_views(bucket@),
                None => Seq::empty(),
            },
            new@,
        ),
{
    match existing {
        Some(bucket) => Arc::new(upsert(bucket, new)),
        None => {
            let none: Vec<Variant> = Vec::new();
            assert(variant_views(none@) =~= Seq::empty());
            Arc::new(upsert(&none, new))
        },
    }
}

/// The bucket that takes the place of `existing` when a policy is refreshed; `None` where it stays
/// as it is.
pub fn refreshed(existing: Option<&Bucket>, policy: &Arc<CachePolicy>) -> (r: Option<Bucket>)
    ensures
        match (existing, r) {
            (Some(bucket), Some(new)) => refreshed_bucket(variant_views(bucket@), policy@) == Some(
                variant_views(new@),
            ),
            (Some(bucket), None) => refreshed_bucket(variant_views(bucket@), policy@) is None,
            (None, new) => new is None,
        },
{
    match existing {
        Some(bucket) => match refresh(bucket, policy) {
            Some(variants) => Some(Arc::new(variants)),
            None => None,
        },
        None => None,
    }
}

/// A stored body that is read back.
pub struct Replay {
    body: Arc<Vec<u8>>,
    position: usize,
    trailers: Option<Headers>,
}

/// How far a stored body was read.
pub struct ReplayView {
    pub body: Seq<u8>,
    pub position: int,
    pub trailers: Option<Fields>,
}

impl View for Replay {
    type V = ReplayView;

    closed spec fn view(&self) -> ReplayView {
        ReplayView {
            body: self.body@,
            position: self.position as int,
            trailers: trailers_view(self.trailers),
        }
    }
}

impl ReplayView {
    /// The number of bytes that a read into a buffer of `room` bytes yields.
    pub open spec fn next_len(self, room: nat) -> int {
        if self.body.len() - self.position <= room {
            self.body.len() - self.position
        } else {
            room as int
        }
    }
}

impl Replay {
    #[verifier::type_invariant]
    closed spec fn inside(self) -> bool {
        self.position <= self.body@.len()
    }

    /// A stored response to be read from its beginning.
    pub fn new(variant: &Variant) -> (r: Replay)
        ensures
            r@ == (ReplayView {
                body: variant@.body,
                position: 0,
                trailers: variant@.trailers,
            }),
    {
        Replay {
            body: share(&variant.body),
            position: 0,
            trailers: clone_trailers(&variant.trailers),
        }
    }

    /// How many bytes are left to read.
    pub fn remaining(&self) -> (r: usize)
        ensures
            r == self@.body.len() - self@.position,
    {
        proof {
            use_type_invariant(self);
        }
        self.body.len() - self.position
    }

    /// Reads as many bytes as there are left and as `buf` has room for, and returns their number.
    pub fn read(&mut self, buf: &mut [u8]) -> (r: usize)
        ensures
            0 <= old(self)@.position <= old(self)@.body.len(),
            r == old(self)@.next_len(old(buf)@.len()),
            final(self)@ == (ReplayView { position: old(self)@.position + r, ..old(self)@ }),
            final(buf)@ == old(self)@.body.subrange(
                old(self)@.position,
                old(self)@.position + r,
            ) + old(buf)@.skip(r as int),
    {
        proof {
            use_type_invariant(&*self);
        }
        let remaining: usize = self.body.len() - self.position;
        let n: usize = if remaining <= buf.len() {
            remaining
        } else {
            buf.len()
        };
        let start: usize = self.position;
        let ghost bytes = self.body@;
        let ghost room = buf@;
        let mut i: usize = 0;
        assert(buf@ =~= bytes.subrange(start as int, start as int) + room.skip(0));
        while i < n
            invariant
                i <= n,
                n <= room.len(),
                start + n <= bytes.len() <= usize::MAX,
                bytes == self.body@,
                self@ == old(self)@,
                buf@ == bytes.subrange(start as int, start + i) + room.skip(i as int),
            decreases n - i,
        {
            buf[i] = self.body[start + i];
            assert(buf@ =~= bytes.subrange(start as int, start + i + 1) + room.skip(i as int + 1));
            i += 1;
        }
        self.position = start + n;
        n
    }

    /// The trailers of the body, the first time that they are asked for.
    pub fn take_trailers(&mut self) -> (r: Option<Headers>)
        ensures
            trailers_view(r) == old(self)@.trailers,
            final(self)@ == (ReplayView { trailers: None, ..old(self)@ }),
    {
        proof {
            use_type_invariant(&*self);
        }
        let mut taken: Option<Headers> = None;
        std::mem::swap(&mut taken, &mut self.trailers);
        taken
    }
}

/// `moka::future::Cache`: a concurrent cache with eviction. What it holds changes at any time.
#[verifier::external_type_specification]
#[verifier::external_body]
#[verifier::reject_recursive_types(K)]
#[verifier::reject_recursive_types(V)]
#[verifier::reject_recursive_types(S)]
pub struct ExMokaCache<K, V, S>(MokaCache<K, V, S>);

/// `moka::future::CacheBuilder`: the configuration of a cache that is to be built.
#[verifier::external_type_specification]
#[verifier::external_body]
#[verifier::reject_recursive_types(K)]
#[verifier::reject_recursive_types(V)]
#[verifier::reject_recursive_types(C)]
pub struct ExCacheBuilder<K, V, C>(moka::future::CacheBuilder<K, V, C>);

/// A cache of buckets.
pub type BucketCache = MokaCache<CacheKey, Bucket>;

/// The configuration of a cache of buckets.
pub type BucketCacheBuilder = CacheBuilder<CacheKey, Bucket, BucketCache>;

/// The limits that a cache was built with.
pub uninterp spec fn cache_limits(cache: BucketCache) -> Limits;

/// The limits that a cache is to be built with.
pub uninterp spec fn builder_limits(builder: BucketCacheBuilder) -> Limits;

/// What a bucket weighs in a cache.
pub uninterp spec fn cache_weight(cache: BucketCache, variants: Seq<VariantView>) -> u32;

/// What a bucket is to weigh in a cache that is to be built.
pub uninterp spec fn builder_weight(builder: BucketCacheBuilder, variants: Seq<VariantView>) -> u32;

/// Whether a bucket weighs its body bytes in a cache.
pub open spec fn weighs_bodies(cache: BucketCache) -> bool {
    forall|variants: Seq<VariantView>| #[trigger]
        cache_weight(cache, variants) == bucket_weight(variants)
}

/// No limit at all.
pub open spec fn unlimited() -> Limits {
    Limits { max_capacity_bytes: None, time_to_idle: None, time_to_live: None }
}

/// `Cache::builder` and `CacheBuilder::weigher`, with `weigh_bucket` to weigh a bucket: no limit is
/// set yet.
#[verifier::external_body]
fn weighing_builder() -> (r: BucketCacheBuilder)
    ensures
        builder_limits(r) == unlimited(),
        forall|variants: Seq<VariantView>| #[trigger]
            builder_weight(r, variants) == bucket_weight(variants),
{
    BucketCache::builder().weigher(|key, bucket| weigh_bucket(key, bucket))
}

/// `CacheBuilder::max_capacity` sets the limit on the total weight.
#[verifier::external_body]
fn set_max_capacity(builder: BucketCacheBuilder, bytes: u64) -> (r: BucketCacheBuilder)
    ensures
        builder_limits(r) == (Limits { max_capacity_bytes: Some(bytes), ..builder_limits(builder) }),
        forall|variants: Seq<VariantView>| #[trigger]
            builder_weight(r, variants) == builder_weight(builder, variants),
{
    builder.max_capacity(bytes)
}

/// `CacheBuilder::time_to_idle` sets how long an entry is kept without being read.
#[verifier::external_body]
fn set_time_to_idle(builder: BucketCacheBuilder, secs: u64, nanos: u32) -> (r: BucketCacheBuilder)
    requires
        nanos < NANOS_PER_SEC,
    ensures
        builder_limits(r) == (Limits {
            time_to_idle: Some(
                Span { nanos: (secs * NANOS_PER_SEC + nanos) as u128 },
            ),
            ..builder_limits(builder)
        }),
        forall|variants: Seq<VariantView>| #[trigger]
            builder_weight(r, variants) == builder_weight(builder, variants),
{
    builder.time_to_idle(Duration::new(secs, nanos))
}

/// `CacheBuilder::time_to_live` sets how long an entry is kept after it was stored.
#[verifier::external_body]
fn set_time_to_live(builder: BucketCacheBuilder, secs: u64, nanos: u32) -> (r: BucketCacheBuilder)
    requires
        nanos < NANOS_PER_SEC,
    ensures
        builder_limits(r) == (Limits {
            time_to_live: Some(
                Span { nanos: (secs * NANOS_PER_SEC + nanos) as u128 },
            ),
            ..builder_limits(builder)
        }),
        forall|variants: Seq<VariantView>| #[trigger]
            builder_weight(r, variants) == builder_weight(builder, variants),
{
    builder.time_to_live(Duration::new(secs, nanos))
}

/// `CacheBuilder::build` makes the cache that was configured. It panics where an expiry is longer
/// than a thousand years.
#[verifier::external_body]
fn build(builder: BucketCacheBuilder) -> (r: BucketCache)
    requires
        builder_limits(builder).in_range(),
    ensures
        cache_limits(r) == builder_limits(builder),
        forall|variants: Seq<VariantView>| #[trigger]
            cache_weight(r, variants) == builder_weight(builder, variants),
{
    builder.build()
}

/// Cloning a cache gives another handle to the same cache: what is done through one is done through
/// the other.
#[verifier::external_body]
fn share_cache(cache: &BucketCache) -> (r: BucketCache)
    ensures
        r == *cache,
{
    cache.clone()
}

/// `Cache::entry_count`: about how many keys there are now. A cache whose limit is zero bytes takes
/// nothing in, so it counts none. Of any other cache nothing is stated: the number goes by what
/// others store and remove, and by how far the cache has caught up.
#[verifier::external_body]
fn approximate_count(cache: &BucketCache) -> (r: u64)
    ensures
        cache_limits(*cache).max_capacity_bytes == Some(0u64) ==> r == 0,
{
    cache.entry_count()
}

/// `Cache::weighted_size`: about what the buckets weigh now. A cache whose limit is zero bytes takes
/// nothing in, so they weigh nothing. Of any other cache nothing is stated: the number goes by what
/// others store and remove, and by how far the cache has caught up.
#[verifier::external_body]
fn approximate_weight(cache: &BucketCache) -> (r: u64)
    ensures
        cache_limits(*cache).max_capacity_bytes == Some(0u64) ==> r == 0,
{
    cache.weighted_size()
}

/// Whether `r` is what a cache gave for its number of keys.
pub closed spec fn counted(cache: BucketCache, r: u64) -> bool {
    call_ensures(approximate_count, (&cache,), r)
}

/// Whether `r` is what a cache gave for the weight of its buckets.
pub closed spec fn weighed(cache: BucketCache, r: u64) -> bool {
    call_ensures(approximate_weight, (&cache,), r)
}

/// An empty cache of buckets with these limits, which count their body bytes.
pub fn build_cache(limits: Limits) -> (r: BucketCache)
    requires
        limits.in_range(),
    ensures
        cache_limits(r) == limits,
        weighs_bodies(r),
{
    let mut builder = weighing_builder();
    if let Some(bytes) = limits.max_capacity_bytes {
        builder = set_max_capacity(builder, bytes);
    }
    if let Some(span) = limits.time_to_idle {
        assert(span.nanos == (span.nanos / NANOS_PER_SEC) * NANOS_PER_SEC + span.nanos
            % NANOS_PER_SEC);
        builder = set_time_to_idle(builder, span.as_secs() as u64, span.subsec_nanos());
    }
    if let Some(span) = limits.time_to_live {
        assert(span.nanos == (span.nanos / NANOS_PER_SEC) * NANOS_PER_SEC + span.nanos
            % NANOS_PER_SEC);
        builder = set_time_to_live(builder, span.as_secs() as u64, span.subsec_nanos());
    }
    build(builder)
}

/// Bounded in-memory storage: body bytes are limited to 256 MiB unless configured otherwise.
///
/// Eviction goes by key: the variants under one key live and die together. Only body bytes count
/// against the limit. Each setter starts over with an empty cache; configure the storage before it
/// is used. Clones share what is stored.
pub struct InMemoryStorage {
    cache: BucketCache,
    limits: Limits,
}

impl InMemoryStorage {
    /// The cache was built with the limits that are configured, to count body bytes.
    #[verifier::type_invariant]
    closed spec fn built_as_configured(self) -> bool {
        &&& cache_limits(self.cache) == self.limits
        &&& self.limits.in_range()
        &&& weighs_bodies(self.cache)
    }

    /// The limits that are configured.
    pub closed spec fn configured(self) -> Limits {
        self.limits
    }

    /// The cache that holds the buckets.
    pub closed spec fn store(self) -> BucketCache {
        self.cache
    }

    fn with_limits(limits: Limits) -> (r: InMemoryStorage)
        requires
            limits.in_range(),
        ensures
            r.configured() == limits,
    {
        InMemoryStorage { cache: build_cache(limits), limits }
    }

    /// Storage with the default settings: 256 MiB of body bytes, no expiry.
    pub fn new() -> (r: InMemoryStorage)
        ensures
            r.configured() == (Limits {
                max_capacity_bytes: Some(DEFAULT_MAX_CAPACITY_BYTES),
                ..unlimited()
            }),
    {
        InMemoryStorage::with_limits(
            Limits {
                max_capacity_bytes: Some(DEFAULT_MAX_CAPACITY_BYTES),
                time_to_idle: None,
                time_to_live: None,
            },
        )
    }

    /// Empty storage with this limit on stored body bytes.
    pub fn with_max_capacity_bytes(self, bytes: u64) -> (r: InMemoryStorage)
        ensures
            r.configured() == (Limits { max_capacity_bytes: Some(bytes), ..self.configured() }),
    {
        proof {
            use_type_invariant(&self);
        }
        InMemoryStorage::with_limits(Limits { max_capacity_bytes: Some(bytes), ..self.limits })
    }

    /// Empty storage without a limit on stored body bytes.
    pub fn unbounded(self) -> (r: InMemoryStorage)
        ensures
            r.configured() == (Limits { max_capacity_bytes: None, ..self.configured() }),
    {
        proof {
            use_type_invariant(&self);
        }
        InMemoryStorage::with_limits(Limits { max_capacity_bytes: None, ..self.limits })
    }

    /// Empty storage that evicts what has not been read for this long.
    pub fn with_time_to_idle(self, duration: Span) -> (r: InMemoryStorage)
        requires
            duration@ <= MAX_EXPIRY_NANOS,
        ensures
            r.configured() == (Limits { time_to_idle: Some(duration), ..self.configured() }),
    {
        proof {
            use_type_invariant(&self);
        }
        InMemoryStorage::with_limits(Limits { time_to_idle: Some(duration), ..self.limits })
    }

    /// Empty storage that evicts what was stored this long ago. This is independent of freshness.
    pub fn with_time_to_live(self, duration: Span) -> (r: InMemoryStorage)
        requires
            duration@ <= MAX_EXPIRY_NANOS,
        ensures
            r.configured() == (Limits { time_to_live: Some(duration), ..self.configured() }),
    {
        proof {
            use_type_invariant(&self);
        }
        InMemoryStorage::with_limits(Limits { time_to_live: Some(duration), ..self.limits })
    }

    /// The limits that are configured.
    pub fn limits(&self) -> (r: Limits)
        ensures
            r == self.configured(),
    {
        self.limits
    }

    /// The cache that holds the buckets. It was built with the configured limits, and a bucket
    /// counts by its body bytes.
    pub fn cache(&self) -> (r: &BucketCache)
        ensures
            *r == self.store(),
            cache_limits(*r) == self.configured(),
            weighs_bodies(*r),
    {
        proof {
            use_type_invariant(self);
        }
        &self.cache
    }

    /// About how many keys are stored, as the cache counts them. Pending work may not be counted
    /// yet. Storage without room for a byte stores nothing, and counts none.
    pub fn entry_count(&self) -> (r: u64)
        ensures
            counted(self.store(), r),
            self.configured().max_capacity_bytes == Some(0u64) ==> r == 0,
    {
        proof {
            use_type_invariant(self);
        }
        approximate_count(&self.cache)
    }

    /// About how many body bytes are stored, as the cache weighs them. Pending work may not be
    /// counted yet. Storage without room for a byte stores nothing, and counts none.
    pub fn weighted_size(&self) -> (r: u64)
        ensures
            weighed(self.store(), r),
            self.configured().max_capacity_bytes == Some(0u64) ==> r == 0,
    {
        proof {
            use_type_invariant(self);
        }
        approximate_weight(&self.cache)
    }

    /// The entries for a key, given the bucket that is stored under it.
    pub fn get(&self, key: &CacheKey, bucket: Option<&Bucket>) -> (r: Vec<InMemoryEntry>)
        ensures
            entry_views(r@) == match bucket {
                Some(variants) => entries_of(self.store(), key@, variant_views(variants@)),
                None => Seq::empty(),
            },
    {
        let mut out: Vec<InMemoryEntry> = Vec::new();
        let variants: &Vec<Variant> = match bucket {
            Some(variants) => variants,
            None => {
                assert(entry_views(out@) =~= Seq::empty());
                return out;
            },
        };
        let ghost all = entries_of(self.store(), key@, variant_views(variants@));
        let mut i: usize = 0;
        assert(entry_views(out@) =~= all.take(0));
        while i < variants.len()
            invariant
                i <= variants.len(),
                all == entries_of(self.store(), key@, variant_views(variants@)),
                entry_views(out@) == all.take(i as int),
            decreases variants.len() - i,
        {
            let ghost before = out@;
            let entry = InMemoryEntry {
                variant: variants[i].clone(),
                cache: share_cache(&self.cache),
                key: key.clone(),
            };
            proof {
                assert(entry@ == all[i as int]);
                assert(all.take(i as int + 1) =~= all.take(i as int).push(all[i as int]));
            }
            out.push(entry);
            assert(entry_views(out@) =~= entry_views(before).push(all[i as int]));
            i += 1;
        }
        assert(all.take(all.len() as int) =~= all);
        out
    }

    /// Starts to store a response.
    pub fn put(&self, key: CacheKey, policy: CachePolicy) -> (r: InMemoryPutHandle)
        ensures
            r@ == (PutView {
                store: self.store(),
                key: key@,
                policy: policy@,
                bytes: Seq::empty(),
            }),
    {
        InMemoryPutHandle { cache: share_cache(&self.cache), key, policy, buffer: Vec::new() }
    }
}

impl Clone for InMemoryStorage {
    fn clone(&self) -> (r: InMemoryStorage)
        ensures
            r.configured() == self.configured(),
            r.store() == self.store(),
    {
        proof {
            use_type_invariant(self);
        }
        InMemoryStorage { cache: share_cache(&self.cache), limits: self.limits }
    }
}

impl Default for InMemoryStorage {
    fn default() -> (r: InMemoryStorage)
        ensures
            r.configured() == (Limits {
                max_capacity_bytes: Some(DEFAULT_MAX_CAPACITY_BYTES),
                ..unlimited()
            }),
    {
        InMemoryStorage::new()
    }
}

/// What storage counts and weighs is what its own cache gave for that.
proof fn gauges_are_those_of_the_cache(storage: &InMemoryStorage, keys: u64, bytes: u64)
    requires
        call_ensures(InMemoryStorage::entry_count, (storage,), keys),
        call_ensures(InMemoryStorage::weighted_size, (storage,), bytes),
    ensures
        call_ensures(approximate_count, (&storage.cache,), keys),
        call_ensures(approximate_weight, (&storage.cache,), bytes),
{
}

/// One stored response, looked up under its key. It is cheap to clone: it shares what is stored.
pub struct InMemoryEntry {
    variant: Variant,
    cache: BucketCache,
    key: CacheKey,
}

/// What a stored response is, and the cache and the key that it is stored under.
#[verifier::ext_equal]
pub struct EntryView {
    pub variant: VariantView,
    pub store: BucketCache,
    pub key: KeyView,
}

impl View for InMemoryEntry {
    type V = EntryView;

    closed spec fn view(&self) -> EntryView {
        EntryView { variant: self.variant@, store: self.cache, key: self.key@ }
    }
}

/// The entries of a vector, by what they are.
pub open spec fn entry_views(entries: Seq<InMemoryEntry>) -> Seq<EntryView> {
    entries.map_values(|entry: InMemoryEntry| entry@)
}

/// The entries that a lookup under `key` gives: one for each variant in the bucket.
pub open spec fn entries_of(
    store: BucketCache,
    key: KeyView,
    variants: Seq<VariantView>,
) -> Seq<EntryView> {
    variants.map_values(|variant: VariantView| EntryView { variant, store, key })
}

impl Clone for InMemoryEntry {
    fn clone(&self) -> (r: InMemoryEntry)
        ensures
            r@ == self@,
    {
        InMemoryEntry {
            variant: self.variant.clone(),
            cache: share_cache(&self.cache),
            key: self.key.clone(),
        }
    }
}

impl InMemoryEntry {
    /// The policy that the response is stored with.
    pub fn policy(&self) -> (r: &CachePolicy)
        ensures
            r@ == self@.variant.policy,
    {
        &self.variant.policy
    }

    /// The key that the response is stored under.
    pub fn key(&self) -> (r: &CacheKey)
        ensures
            r@ == self@.key,
    {
        &self.key
    }

    /// The cache that the response is stored in.
    pub fn cache(&self) -> (r: &BucketCache)
        ensures
            *r == self@.store,
    {
        &self.cache
    }

    /// Gives the response a new policy. This entry has it at once; the caller puts what
    /// `refreshed` makes of the stored bucket in its place.
    pub fn refresh_policy(&mut self, new_policy: CachePolicy) -> (r: Arc<CachePolicy>)
        ensures
            r@ == new_policy@,
            final(self)@ == (EntryView {
                variant: VariantView { policy: new_policy@, ..old(self)@.variant },
                ..old(self)@
            }),
    {
        let policy = Arc::new(new_policy);
        self.variant.policy = share(&policy);
        policy
    }

    /// The stored body, to be read from its beginning.
    pub fn open(self) -> (r: Replay)
        ensures
            r@ == (ReplayView {
                body: self@.variant.body,
                position: 0,
                trailers: self@.variant.trailers,
            }),
    {
        Replay::new(&self.variant)
    }
}

/// A response that is being stored: its bytes are kept until it is committed. Without a commit
/// nothing is stored.
pub struct InMemoryPutHandle {
    cache: BucketCache,
    key: CacheKey,
    policy: CachePolicy,
    buffer: Vec<u8>,
}

/// What was given of a response so far, and the cache and the key that it will be stored under.
#[verifier::ext_equal]
pub struct PutView {
    pub store: BucketCache,
    pub key: KeyView,
    pub policy: PolicyView,
    pub bytes: Seq<u8>,
}

impl View for InMemoryPutHandle {
    type V = PutView;

    closed spec fn view(&self) -> PutView {
        PutView {
            store: self.cache,
            key: self.key@,
            policy: self.policy@,
            bytes: self.buffer@,
        }
    }
}

impl InMemoryPutHandle {
    /// The key that the response will be stored under.
    pub fn key(&self) -> (r: &CacheKey)
        ensures
            r@ == self@.key,
    {
        &self.key
    }

    /// The cache that the response will be stored in.
    pub fn cache(&self) -> (r: &BucketCache)
        ensures
            *r == self@.store,
    {
        &self.cache
    }

    /// Takes all of `bytes`, and returns how many those are.
    pub fn write(&mut self, bytes: &[u8]) -> (r: usize)
        ensures
            r == bytes@.len(),
            final(self)@ == (PutView { bytes: old(self)@.bytes + bytes@, ..old(self)@ }),
    {
        let mut i: usize = 0;
        assert(self.buffer@ =~= old(self).buffer@ + bytes@.take(0));
        while i < bytes.len()
            invariant
                i <= bytes.len(),
                self.policy == old(self).policy,
                self.key == old(self).key,
                self.cache == old(self).cache,
                self.buffer@ == old(self).buffer@ + bytes@.take(i as int),
            decreases bytes.len() - i,
        {
            self.buffer.push(bytes[i]);
            assert(bytes@.take(i as int + 1) =~= bytes@.take(i as int).push(bytes@[i as int]));
            assert(self.buffer@ =~= old(self).buffer@ + bytes@.take(i as int + 1));
            i += 1;
        }
        assert(bytes@.take(bytes@.len() as int) =~= bytes@);
        bytes.len()
    }

    /// The response to commit, with its trailers. The caller puts what `committed` makes of the
    /// stored bucket in its place.
    pub fn finalize(self, trailers: Option<Headers>) -> (r: Variant)
        ensures
            r@ == (VariantView {
                policy: self@.policy,
                body: self@.bytes,
                trailers: trailers_view(trailers),
            }),
    {
        Variant { policy: Arc::new(self.policy), body: Arc::new(self.buffer), trailers }
    }
}

} // verus!
