//! Laws on two tiers of storage.
use vstd::prelude::*;

use crate::laws::buckets::the_last_stored_is_found;
use crate::memory::{upserted, variant_index, VariantView};
use crate::policy::{CachePolicy, PolicyView, Selection};
use crate::tiered::{answering_tier, entry_to_flush, selection_index, Tier};

verus! {

/// The policies of the variants in a bucket.
pub open spec fn policies_of(variants: Seq<VariantView>) -> Seq<PolicyView> {
    variants.map_values(|variant: VariantView| variant.policy)
}

proof fn lemma_same_index(variants: Seq<VariantView>, vary: Selection)
    ensures
        selection_index(policies_of(variants), vary) == variant_index(variants, vary),
    decreases variants.len(),
{
    if variants.len() > 0 && variants[0].policy.vary != vary {
        lemma_same_index(variants.skip(1), vary);
        assert(policies_of(variants).skip(1) =~= policies_of(variants.skip(1)));
    }
}

/// What is copied into the cold tier is what was just stored in the hot one.
pub proof fn what_was_stored_is_what_is_flushed(variants: Seq<VariantView>, new: VariantView)
    ensures
        ({
            let stored = upserted(variants, new);
            let index = selection_index(policies_of(stored), new.policy.vary) as int;
            index < stored.len() && stored[index] == new
        }),
{
    let stored = upserted(variants, new);
    lemma_same_index(stored, new.policy.vary);
    the_last_stored_is_found(variants, new);
    assert(stored.len() > 0);
}

proof fn lemma_selection_index(policies: Seq<PolicyView>, vary: Selection)
    ensures
        selection_index(policies, vary) <= policies.len(),
        selection_index(policies, vary) < policies.len() ==> policies[selection_index(
            policies,
            vary,
        ) as int].vary == vary,
        forall|i: int|
            0 <= i < selection_index(policies, vary) ==> (#[trigger] policies[i]).vary != vary,
    decreases policies.len(),
{
    if policies.len() > 0 && policies[0].vary != vary {
        let rest = policies.skip(1);
        lemma_selection_index(rest, vary);
        assert forall|i: int| 0 <= i < selection_index(policies, vary) implies (
        #[trigger] policies[i]).vary != vary by {
            if i > 0 {
                assert(rest[i - 1] == policies[i]);
            }
        }
    }
}

/// What is copied into the cold tier is the first hot entry of the variant that was stored; where
/// there is none of that variant any more, nothing is.
pub proof fn the_stored_variant_is_flushed(
    policies: &Vec<&CachePolicy>,
    policy: &CachePolicy,
    r: Option<usize>,
)
    requires
        call_ensures(entry_to_flush, (policies, policy), r),
    ensures
        r matches Some(index) ==> index < policies@.len() && policies@[index as int]@.vary
            == policy@.vary && (forall|i: int|
            0 <= i < index ==> (#[trigger] policies@[i])@.vary != policy@.vary),
        r is None ==> forall|i: int|
            0 <= i < policies@.len() ==> (#[trigger] policies@[i])@.vary != policy@.vary,
{
    let all = crate::engine::policy_views(policies@);
    lemma_selection_index(all, policy@.vary);
    assert(all.len() == policies@.len());
    assert forall|i: int|
        0 <= i < selection_index(all, policy@.vary) implies (#[trigger] policies@[i])@.vary
        != policy@.vary by {
        assert(all[i] == policies@[i]@);
    }
}

/// A lookup is answered by the hot tier exactly where that has anything.
pub proof fn the_hot_tier_answers_first(hot_entries: usize, r: Tier)
    requires
        call_ensures(answering_tier, (hot_entries,), r),
    ensures
        r is Hot <==> hot_entries > 0,
{
}

} // verus!
