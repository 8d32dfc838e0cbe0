//! Laws on in-memory storage.
use std::sync::Arc;
use trillium_http::Headers;
use vstd::prelude::*;

use crate::headers::trailers_view;
use crate::limits::Limits;
use crate::memory::{
    body_bytes, build_cache, cache_limits, cache_weight, committed, entries_of, entry_views,
    find_variant, others, refresh, refreshed, refreshed_bucket, upsert, upserted, variant_index,
    variant_views, weigh_bucket, Bucket, BucketCache, EntryView, InMemoryEntry, InMemoryPutHandle,
    InMemoryStorage, PutView, Replay, ReplayView, Variant, VariantView,
};
use crate::policy::{CachePolicy, PolicyView, Selection};
use crate::storage::CacheKey;
use crate::time::Span;

verus! {

/// Whether no two variants of a bucket were chosen by the same selection.
pub open spec fn distinct(variants: Seq<VariantView>) -> bool {
    forall|i: int, j: int|
        0 <= i < j < variants.len() ==> (#[trigger] variants[i]).policy.vary != (
        #[trigger] variants[j]).policy.vary
}

proof fn lemma_others(variants: Seq<VariantView>, vary: Selection)
    ensures
        forall|i: int|
            0 <= i < others(variants, vary).len() ==> (#[trigger] others(
                variants,
                vary,
            )[i]).policy.vary != vary && variants.contains(others(variants, vary)[i]),
        forall|i: int|
            0 <= i < variants.len() && (#[trigger] variants[i]).policy.vary != vary ==> others(
                variants,
                vary,
            ).contains(variants[i]),
        distinct(variants) ==> distinct(others(variants, vary)),
    decreases variants.len(),
{
    if variants.len() > 0 {
        let front = variants.drop_last();
        let rest = others(front, vary);
        let all = others(variants, vary);
        lemma_others(front, vary);
        assert forall|i: int| 0 <= i < all.len() implies (#[trigger] all[i]).policy.vary != vary
            && variants.contains(all[i]) by {
            if i < rest.len() {
                assert(all[i] == rest[i]);
                let j = choose|j: int| 0 <= j < front.len() && front[j] == rest[i];
                assert(variants[j] == rest[i]);
            } else {
                assert(variants[variants.len() - 1] == all[i]);
            }
        }
        assert forall|i: int|
            0 <= i < variants.len() && (#[trigger] variants[i]).policy.vary != vary implies
            all.contains(variants[i]) by {
            if i < front.len() {
                assert(front[i] == variants[i]);
                let j = choose|j: int| 0 <= j < rest.len() && rest[j] == variants[i];
                assert(all[j] == variants[i]);
            } else {
                assert(all[all.len() - 1] == variants[i]);
            }
        }
        if distinct(variants) {
            assert forall|i: int, j: int| 0 <= i < j < front.len() implies (
            #[trigger] front[i]).policy.vary != (#[trigger] front[j]).policy.vary by {
                assert(front[i] == variants[i]);
                assert(front[j] == variants[j]);
            }
            assert forall|i: int, j: int| 0 <= i < j < all.len() implies (
            #[trigger] all[i]).policy.vary != (#[trigger] all[j]).policy.vary by {
                assert(all[i] == rest[i]);
                if j < rest.len() {
                    assert(all[j] == rest[j]);
                } else {
                    let k = choose|k: int| 0 <= k < front.len() && front[k] == rest[i];
                    assert(variants[k] == rest[i]);
                    assert(variants[variants.len() - 1] == all[j]);
                }
            }
        }
    }
}

/// Storing a response replaces those of its variant and keeps the others: afterwards it is the one
/// of its variant, nothing else is new, and nothing else is gone.
pub proof fn storing_replaces_the_variant(variants: Seq<VariantView>, new: VariantView)
    ensures
        upserted(variants, new).last() == new,
        forall|i: int|
            0 <= i < upserted(variants, new).len() - 1 ==> (#[trigger] upserted(
                variants,
                new,
            )[i]).policy.vary != new.policy.vary && variants.contains(upserted(variants, new)[i]),
        forall|i: int|
            0 <= i < variants.len() && (#[trigger] variants[i]).policy.vary != new.policy.vary
                ==> upserted(variants, new).contains(variants[i]),
{
    let kept = others(variants, new.policy.vary);
    let all = upserted(variants, new);
    lemma_others(variants, new.policy.vary);
    assert forall|i: int| 0 <= i < all.len() - 1 implies (#[trigger] all[i]).policy.vary
        != new.policy.vary && variants.contains(all[i]) by {
        assert(all[i] == kept[i]);
    }
    assert forall|i: int|
        0 <= i < variants.len() && (#[trigger] variants[i]).policy.vary
            != new.policy.vary implies all.contains(variants[i]) by {
        let j = choose|j: int| 0 <= j < kept.len() && kept[j] == variants[i];
        assert(all[j] == variants[i]);
    }
}

/// Storing keeps the variants of a bucket distinct.
pub proof fn storing_keeps_variants_distinct(variants: Seq<VariantView>, new: VariantView)
    requires
        distinct(variants),
    ensures
        distinct(upserted(variants, new)),
{
    lemma_others(variants, new.policy.vary);
    let kept = others(variants, new.policy.vary);
    let all = upserted(variants, new);
    assert forall|i: int, j: int| 0 <= i < j < all.len() implies (#[trigger] all[i]).policy.vary
        != (#[trigger] all[j]).policy.vary by {
        assert(all[i] == kept[i]);
        if j < kept.len() {
            assert(all[j] == kept[j]);
        }
    }
}

proof fn lemma_variant_index(variants: Seq<VariantView>, vary: Selection)
    ensures
        variant_index(variants, vary) <= variants.len(),
        variant_index(variants, vary) < variants.len() ==> variants[variant_index(
            variants,
            vary,
        ) as int].policy.vary == vary,
        forall|i: int|
            0 <= i < variant_index(variants, vary) ==> (#[trigger] variants[i]).policy.vary != vary,
    decreases variants.len(),
{
    if variants.len() > 0 && variants[0].policy.vary != vary {
        let rest = variants.skip(1);
        lemma_variant_index(rest, vary);
        assert forall|i: int| 0 <= i < variant_index(variants, vary) implies (
        #[trigger] variants[i]).policy.vary != vary by {
            if i > 0 {
                assert(rest[i - 1] == variants[i]);
            }
        }
    }
}

/// What was stored last for a variant is what is found for it.
pub proof fn the_last_stored_is_found(variants: Seq<VariantView>, new: VariantView)
    ensures
        variant_index(upserted(variants, new), new.policy.vary) == upserted(variants, new).len()
            - 1,
        upserted(variants, new)[variant_index(upserted(variants, new), new.policy.vary) as int]
            == new,
{
    storing_replaces_the_variant(variants, new);
    lemma_variant_index(upserted(variants, new), new.policy.vary);
}

/// Refreshing a policy changes the policy of its variant and nothing else: not a body, nor a
/// trailer, nor another variant, nor their order, nor the bytes that are counted.
pub proof fn refreshing_changes_one_policy(variants: Seq<VariantView>, policy: PolicyView)
    requires
        refreshed_bucket(variants, policy) is Some,
    ensures
        refreshed_bucket(variants, policy)->0.len() == variants.len(),
        forall|i: int|
            #![trigger refreshed_bucket(variants, policy)->0[i]]
            0 <= i < variants.len() ==> {
                let before = variants[i];
                let after = refreshed_bucket(variants, policy)->0[i];
                &&& after.body == before.body
                &&& after.trailers == before.trailers
                &&& after.policy.vary == before.policy.vary
                &&& before.policy.vary != policy.vary ==> after == before
            },
        body_bytes(refreshed_bucket(variants, policy)->0) == body_bytes(variants),
{
    lemma_variant_index(variants, policy.vary);
    let index = variant_index(variants, policy.vary) as int;
    let new = VariantView { policy, ..variants[index] };
    lemma_body_bytes_update(variants, index, new);
}

/// A policy is refreshed exactly where its variant is stored.
pub proof fn refreshing_needs_the_variant(variants: Seq<VariantView>, policy: PolicyView)
    ensures
        refreshed_bucket(variants, policy) is Some <==> exists|i: int|
            0 <= i < variants.len() && (#[trigger] variants[i]).policy.vary == policy.vary,
{
    lemma_variant_index(variants, policy.vary);
}

proof fn lemma_body_bytes_update(variants: Seq<VariantView>, index: int, new: VariantView)
    requires
        0 <= index < variants.len(),
        new.body == variants[index].body,
    ensures
        body_bytes(variants.update(index, new)) == body_bytes(variants),
    decreases variants.len(),
{
    let changed = variants.update(index, new);
    if index == variants.len() - 1 {
        assert(changed.drop_last() =~= variants.drop_last());
    } else {
        lemma_body_bytes_update(variants.drop_last(), index, new);
        assert(changed.drop_last() =~= variants.drop_last().update(index, new));
    }
}

/// A read gives back what was written: after bytes were given to a handle and it was committed, a
/// lookup under its key in the same cache gives, as its last entry, one whose body is those bytes
/// and whose policy and trailers are those it was given; and reading that body from its beginning
/// yields those bytes.
pub proof fn what_was_written_is_read_back(
    variants: Seq<VariantView>,
    put: PutView,
    trailers: Option<crate::headers::Fields>,
    room: nat,
)
    requires
        room >= put.bytes.len(),
    ensures
        ({
            let new = VariantView { policy: put.policy, body: put.bytes, trailers };
            let entries = entries_of(put.store, put.key, upserted(variants, new));
            let found = entries.last();
            let replay = ReplayView {
                body: found.variant.body,
                position: 0,
                trailers: found.variant.trailers,
            };
            &&& found == (EntryView { variant: new, store: put.store, key: put.key })
            &&& replay.next_len(room) == put.bytes.len()
            &&& replay.body.subrange(0, replay.next_len(room)) == put.bytes
            &&& replay.trailers == trailers
        }),
{
    let new = VariantView { policy: put.policy, body: put.bytes, trailers };
    let entries = entries_of(put.store, put.key, upserted(variants, new));
    assert(entries.last() == (EntryView { variant: new, store: put.store, key: put.key }));
    assert(put.bytes.subrange(0, put.bytes.len() as int) =~= put.bytes);
}

/// Two reads in a row yield neighbouring bytes of the body: together, what one read of their joint
/// length would have yielded.
pub proof fn reads_follow_one_another(replay: ReplayView, first: nat, second: nat)
    requires
        0 <= replay.position <= replay.body.len(),
    ensures
        ({
            let n = replay.next_len(first);
            let then = ReplayView { position: replay.position + n, ..replay };
            let m = then.next_len(second);
            &&& replay.body.subrange(replay.position, replay.position + n) + replay.body.subrange(
                then.position,
                then.position + m,
            ) == replay.body.subrange(replay.position, replay.position + n + m)
            &&& n == first ==> n + m == replay.next_len(first + second)
        }),
{
    let n = replay.next_len(first);
    let then = ReplayView { position: replay.position + n, ..replay };
    let m = then.next_len(second);
    assert(replay.body.subrange(replay.position, replay.position + n) + replay.body.subrange(
        then.position,
        then.position + m,
    ) =~= replay.body.subrange(replay.position, replay.position + n + m));
}

/// The first variant that a policy's selection chose gets the policy, and keeps body and trailers.
pub proof fn refreshing_gives_the_policy(
    bucket: &Bucket,
    policy: &Arc<CachePolicy>,
    r: Option<Bucket>,
    at: int,
)
    requires
        call_ensures(refreshed, (Some(bucket), policy), r),
        0 <= at < bucket@.len(),
        variant_views(bucket@)[at].policy.vary == policy@.vary,
        forall|i: int|
            0 <= i < at ==> (#[trigger] variant_views(bucket@)[i]).policy.vary != policy@.vary,
    ensures
        r is Some,
        r->0@.len() == bucket@.len(),
        variant_views(r->0@)[at].policy == policy@,
        variant_views(r->0@)[at].body == variant_views(bucket@)[at].body,
        variant_views(r->0@)[at].trailers == variant_views(bucket@)[at].trailers,
        forall|i: int|
            0 <= i < bucket@.len() && i != at ==> #[trigger] variant_views(r->0@)[i]
                == variant_views(bucket@)[i],
{
    let all = variant_views(bucket@);
    lemma_variant_index(all, policy@.vary);
    let index = variant_index(all, policy@.vary) as int;
    if index < at {
        assert(all[index].policy.vary != policy@.vary);
    }
    assert(index == at);
    assert(variant_views(r->0@).len() == r->0@.len());
}

/// A policy whose variant is not stored, or not any more, is put nowhere.
pub proof fn what_is_not_stored_is_not_refreshed(
    existing: Option<&Bucket>,
    policy: &Arc<CachePolicy>,
    r: Option<Bucket>,
)
    requires
        call_ensures(refreshed, (existing, policy), r),
        existing matches Some(bucket) ==> forall|i: int|
            0 <= i < bucket@.len() ==> (#[trigger] variant_views(bucket@)[i]).policy.vary
                != policy@.vary,
    ensures
        r is None,
{
    if let Some(bucket) = existing {
        lemma_variant_index(variant_views(bucket@), policy@.vary);
    }
}

/// A committed response stands last in its bucket, as it was committed; the others of its variant
/// are gone, and all the other variants stand before it, as they were and in the order they had.
pub proof fn committing_replaces_the_variant(existing: Option<&Bucket>, new: Variant, r: Bucket)
    requires
        call_ensures(committed, (existing, new), r),
    ensures
        r@.len() > 0,
        variant_views(r@).last() == new@,
        forall|i: int|
            0 <= i < r@.len() - 1 ==> (#[trigger] variant_views(r@)[i]).policy.vary
                != new@.policy.vary,
        existing is None ==> r@.len() == 1,
        existing matches Some(bucket) ==> variant_views(r@).drop_last() == variant_views(
            bucket@,
        ).filter(|variant: VariantView| variant.policy.vary != new@.policy.vary),
        existing matches Some(bucket) ==> is_subsequence(
            variant_views(r@).drop_last(),
            variant_views(bucket@),
        ) && (forall|i: int|
            0 <= i < bucket@.len() && (#[trigger] variant_views(bucket@)[i]).policy.vary
                != new@.policy.vary ==> variant_views(r@).contains(variant_views(bucket@)[i])),
{
    let old_variants = match existing {
        Some(bucket) => variant_views(bucket@),
        None => Seq::empty(),
    };
    storing_replaces_the_variant(old_variants, new@);
    assert(variant_views(r@) == upserted(old_variants, new@));
    assert(variant_views(r@).len() == r@.len());
    lemma_others_in_order(old_variants, new@.policy.vary);
    lemma_others_are_filtered(old_variants, new@.policy.vary);
    assert(variant_views(r@).drop_last() =~= others(old_variants, new@.policy.vary));
}

/// The same of the variants of one bucket.
pub proof fn storing_filters_the_variant(
    variants: &Vec<Variant>,
    policy: &CachePolicy,
    new: Variant,
    at: usize,
    stored: Vec<Variant>,
)
    requires
        call_ensures(find_variant, (variants, policy), at),
        call_ensures(upsert, (variants, new), stored),
    ensures
        at <= variants@.len(),
        at < variants@.len() ==> variants@[at as int]@.policy.vary == policy@.vary,
        forall|i: int| 0 <= i < at ==> (#[trigger] variants@[i])@.policy.vary != policy@.vary,
        variant_views(stored@) == variant_views(variants@).filter(
            |variant: VariantView| variant.policy.vary != new@.policy.vary,
        ).push(new@),
{
    let all = variant_views(variants@);
    lemma_variant_index(all, policy@.vary);
    lemma_others_are_filtered(all, new@.policy.vary);
    assert(all.len() == variants@.len());
    assert forall|i: int| 0 <= i < at implies (#[trigger] variants@[i])@.policy.vary
        != policy@.vary by {
        assert(all[i] == variants@[i]@);
    }
    if at < variants@.len() {
        assert(all[at as int] == variants@[at as int]@);
    }
}

/// Refreshing a vector of variants gives the first of the policy's variant the policy, where there
/// is one, and changes nothing else.
pub proof fn refreshing_changes_the_first(
    variants: &Vec<Variant>,
    policy: &Arc<CachePolicy>,
    r: Option<Vec<Variant>>,
)
    requires
        call_ensures(refresh, (variants, policy), r),
    ensures
        r is None ==> forall|i: int|
            0 <= i < variants@.len() ==> (#[trigger] variants@[i])@.policy.vary != policy@.vary,
        r matches Some(out) ==> exists|at: int|
            0 <= at < variants@.len() && (#[trigger] variants@[at])@.policy.vary == policy@.vary
                && (forall|i: int|
                0 <= i < at ==> (#[trigger] variants@[i])@.policy.vary != policy@.vary)
                && variant_views(out@) == variant_views(variants@).update(
                at,
                VariantView {
                    policy: policy@,
                    body: variants@[at]@.body,
                    trailers: variants@[at]@.trailers,
                },
            ),
{
    let all = variant_views(variants@);
    lemma_variant_index(all, policy@.vary);
    assert(all.len() == variants@.len());
    let at = variant_index(all, policy@.vary) as int;
    assert forall|i: int| 0 <= i < at implies (#[trigger] variants@[i])@.policy.vary
        != policy@.vary by {
        assert(all[i] == variants@[i]@);
    }
    if r is Some {
        assert(all[at] == variants@[at]@);
    }
}

/// Whether one sequence is what is left of another after leaving some of it out.
pub open spec fn is_subsequence(part: Seq<VariantView>, whole: Seq<VariantView>) -> bool
    decreases whole.len(),
{
    if part.len() == 0 {
        true
    } else if whole.len() == 0 {
        false
    } else {
        is_subsequence(part, whole.drop_last()) || (part.last() == whole.last() && is_subsequence(
            part.drop_last(),
            whole.drop_last(),
        ))
    }
}

proof fn lemma_others_are_filtered(variants: Seq<VariantView>, vary: Selection)
    ensures
        others(variants, vary) == variants.filter(
            |variant: VariantView| variant.policy.vary != vary,
        ),
    decreases variants.len(),
{
    reveal(Seq::filter);
    if variants.len() > 0 {
        lemma_others_are_filtered(variants.drop_last(), vary);
    }
}

proof fn lemma_others_in_order(variants: Seq<VariantView>, vary: Selection)
    ensures
        is_subsequence(others(variants, vary), variants),
    decreases variants.len(),
{
    if variants.len() > 0 {
        lemma_others_in_order(variants.drop_last(), vary);
        let rest = others(variants.drop_last(), vary);
        if variants.last().policy.vary != vary {
            assert(others(variants, vary).drop_last() =~= rest);
        }
    }
}

/// A bucket weighs the bytes of its bodies, all together, or the largest weight where those are
/// more.
pub proof fn buckets_weigh_their_bodies(key: &CacheKey, bucket: &Bucket, r: u32)
    requires
        call_ensures(weigh_bucket, (key, bucket), r),
    ensures
        r == if total_length(variant_views(bucket@)) <= 0xffff_ffff {
            total_length(variant_views(bucket@))
        } else {
            0xffff_ffff
        },
{
    lemma_total_length(variant_views(bucket@));
}

/// The lengths of the bodies of some variants, added up from the first on.
pub open spec fn total_length(variants: Seq<VariantView>) -> nat
    decreases variants.len(),
{
    if variants.len() == 0 {
        0
    } else {
        variants[0].body.len() + total_length(variants.skip(1))
    }
}

proof fn lemma_total_length(variants: Seq<VariantView>)
    ensures
        total_length(variants) == body_bytes(variants),
    decreases variants.len(),
{
    if variants.len() == 1 {
        assert(variants.skip(1).len() == 0);
        assert(variants.drop_last().len() == 0);
        assert(total_length(variants.skip(1)) == 0);
        assert(body_bytes(variants.drop_last()) == 0);
    } else if variants.len() > 1 {
        let middle = variants.skip(1).drop_last();
        lemma_total_length(variants.skip(1));
        lemma_total_length(variants.drop_last());
        lemma_total_length(middle);
        assert(variants.drop_last().skip(1) =~= middle);
        assert(variants.drop_last()[0] == variants[0]);
        assert(variants.skip(1).last() == variants.last());
    }
}

/// A lookup gives one entry for each variant of the bucket, in order, with its policy and body, for
/// the key that was looked up and the cache that was asked; without a bucket it gives none.
pub proof fn lookups_give_every_variant(
    storage: &InMemoryStorage,
    key: &CacheKey,
    bucket: Option<&Bucket>,
    r: Vec<InMemoryEntry>,
)
    requires
        call_ensures(InMemoryStorage::get, (storage, key, bucket), r),
    ensures
        bucket is None ==> r@.len() == 0,
        bucket matches Some(variants) ==> r@.len() == variants@.len() && (forall|i: int|
            0 <= i < r@.len() ==> (#[trigger] r@[i])@.variant == variants@[i]@ && r@[i]@.key == key@
                && r@[i]@.store == storage.store()),
{
    if let Some(variants) = bucket {
        let views = entry_views(r@);
        assert(views.len() == r@.len());
        assert forall|i: int| 0 <= i < r@.len() implies (#[trigger] r@[i])@.variant == variants@[i]@
            && r@[i]@.key == key@ && r@[i]@.store == storage.store() by {
            assert(views[i] == r@[i]@);
        }
    } else {
        assert(entry_views(r@).len() == r@.len());
    }
}

/// A response that was put under a key, byte for byte, and finalized, is a variant with its policy,
/// with just those bytes, and with the trailers it was finalized with.
pub proof fn what_was_put_is_what_is_committed(
    storage: &InMemoryStorage,
    key: CacheKey,
    policy: CachePolicy,
    handle: InMemoryPutHandle,
    trailers: Option<Headers>,
    r: Variant,
)
    requires
        call_ensures(InMemoryStorage::put, (storage, key, policy), handle),
        call_ensures(InMemoryPutHandle::finalize, (handle, trailers), r),
    ensures
        handle@.key == key@,
        handle@.store == storage.store(),
        r@.policy == policy@,
        r@.body.len() == 0,
        r@.trailers == trailers_view(trailers),
{
}

/// A finalized response has exactly the bytes that were written, whatever they were.
pub proof fn finalizing_keeps_the_bytes(
    handle: InMemoryPutHandle,
    trailers: Option<Headers>,
    r: Variant,
)
    requires
        call_ensures(InMemoryPutHandle::finalize, (handle, trailers), r),
    ensures
        r@.body == handle@.bytes,
        r@.policy == handle@.policy,
        r@.trailers == trailers_view(trailers),
{
}

/// An entry is read from its first byte, with its own body and trailers.
pub proof fn entries_are_read_from_the_beginning(entry: InMemoryEntry, r: Replay)
    requires
        call_ensures(InMemoryEntry::open, (entry,), r),
    ensures
        r@.position == 0,
        r@.body == entry@.variant.body,
        r@.trailers == entry@.variant.trailers,
{
}

/// A read yields as much as there is left and room for.
pub proof fn reads_yield_what_is_left(replay: ReplayView, room: nat)
    requires
        0 <= replay.position <= replay.body.len(),
    ensures
        0 <= replay.next_len(room) <= room,
        replay.next_len(room) <= replay.body.len() - replay.position,
        replay.next_len(room) == room || replay.next_len(room) == replay.body.len()
            - replay.position,
{
}

/// A read moves the next bytes of the body into the buffer, as many as are left and as there is
/// room for, and goes on behind them the next time.
pub proof fn reads_go_through_the_body(replay: &mut Replay, buf: &mut [u8], r: usize)
    requires
        call_ensures(Replay::read, (replay, buf), r),
    ensures
        0 <= old(replay)@.position,
        old(replay)@.position + r <= old(replay)@.body.len(),
        r <= old(buf)@.len(),
        r == old(buf)@.len() || old(replay)@.position + r == old(replay)@.body.len(),
        final(replay)@.position == old(replay)@.position + r,
        final(replay)@.body == old(replay)@.body,
        final(replay)@.trailers == old(replay)@.trailers,
        final(buf)@.len() == old(buf)@.len(),
        forall|i: int|
            0 <= i < r ==> #[trigger] final(buf)@[i] == old(replay)@.body[old(replay)@.position
                + i],
        forall|i: int| r <= i < old(buf)@.len() ==> #[trigger] final(buf)@[i] == old(buf)@[i],
{
}

/// What is left to read is what lies behind the position.
pub proof fn what_is_left_lies_behind_the_position(replay: &Replay, r: usize)
    requires
        call_ensures(Replay::remaining, (replay,), r),
    ensures
        replay@.position + r == replay@.body.len(),
{
}

/// The trailers of a stored body are taken once, and nothing else changes.
pub proof fn stored_trailers_are_taken_once(replay: &mut Replay, r: Option<Headers>)
    requires
        call_ensures(Replay::take_trailers, (replay,), r),
    ensures
        trailers_view(r) == old(replay)@.trailers,
        final(replay)@.trailers is None,
        final(replay)@.body == old(replay)@.body,
        final(replay)@.position == old(replay)@.position,
{
}

/// All of the bytes that are written to a handle are kept, behind those that it has.
pub proof fn writing_adds_the_bytes(handle: &mut InMemoryPutHandle, bytes: &[u8], r: usize)
    requires
        call_ensures(InMemoryPutHandle::write, (handle, bytes), r),
    ensures
        r == bytes@.len(),
        final(handle)@.bytes == old(handle)@.bytes + bytes@,
        final(handle)@.policy == old(handle)@.policy,
        final(handle)@.key == old(handle)@.key,
        final(handle)@.store == old(handle)@.store,
{
}

/// An entry whose policy is refreshed has the new policy, and nothing else of it changes.
pub proof fn refreshed_entries_have_the_policy(
    entry: &mut InMemoryEntry,
    policy: CachePolicy,
    r: Arc<CachePolicy>,
)
    requires
        call_ensures(InMemoryEntry::refresh_policy, (entry, policy), r),
    ensures
        r@ == policy@,
        final(entry)@.variant.policy == policy@,
        final(entry)@.variant.body == old(entry)@.variant.body,
        final(entry)@.variant.trailers == old(entry)@.variant.trailers,
        final(entry)@.key == old(entry)@.key,
        final(entry)@.store == old(entry)@.store,
{
}

/// Storage that nobody configured keeps 256 MiB of body bytes, for as long as it will.
pub proof fn storage_is_bounded_by_default(a: InMemoryStorage, b: InMemoryStorage)
    requires
        call_ensures(InMemoryStorage::new, (), a),
        call_ensures(InMemoryStorage::default, (), b),
    ensures
        a.configured().max_capacity_bytes == Some(268_435_456u64),
        a.configured().time_to_idle is None,
        a.configured().time_to_live is None,
        b.configured() == a.configured(),
{
}

/// Each setter of storage sets one limit, and keeps the others.
pub proof fn limits_are_set_one_by_one(
    storage: InMemoryStorage,
    bytes: u64,
    span: Span,
    bounded: InMemoryStorage,
    unbounded: InMemoryStorage,
    idling: InMemoryStorage,
    living: InMemoryStorage,
)
    requires
        call_ensures(InMemoryStorage::with_max_capacity_bytes, (storage, bytes), bounded),
        call_ensures(InMemoryStorage::unbounded, (storage,), unbounded),
        call_ensures(InMemoryStorage::with_time_to_idle, (storage, span), idling),
        call_ensures(InMemoryStorage::with_time_to_live, (storage, span), living),
    ensures
        bounded.configured().max_capacity_bytes == Some(bytes),
        bounded.configured().time_to_idle == storage.configured().time_to_idle,
        bounded.configured().time_to_live == storage.configured().time_to_live,
        unbounded.configured().max_capacity_bytes is None,
        unbounded.configured().time_to_idle == storage.configured().time_to_idle,
        unbounded.configured().time_to_live == storage.configured().time_to_live,
        idling.configured().max_capacity_bytes == storage.configured().max_capacity_bytes,
        idling.configured().time_to_idle == Some(span),
        idling.configured().time_to_live == storage.configured().time_to_live,
        living.configured().max_capacity_bytes == storage.configured().max_capacity_bytes,
        living.configured().time_to_idle == storage.configured().time_to_idle,
        living.configured().time_to_live == Some(span),
{
}

/// A cache is built with the limits it is asked for, and its buckets count by their bodies.
pub proof fn caches_are_built_to_their_limits(
    limits: Limits,
    r: BucketCache,
    bucket: Seq<VariantView>,
)
    requires
        call_ensures(build_cache, (limits,), r),
    ensures
        cache_limits(r) == limits,
        total_length(bucket) <= 0xffff_ffff ==> cache_weight(r, bucket) == total_length(bucket),
        total_length(bucket) > 0xffff_ffff ==> cache_weight(r, bucket) == 0xffff_ffff,
{
    lemma_total_length(bucket);
    assert(cache_weight(r, bucket) == crate::memory::bucket_weight(bucket));
}

} // verus!
