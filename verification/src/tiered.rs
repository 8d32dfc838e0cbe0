//! Two tiers of storage: a fast hot one over a durable cold one.
//!
//! A lookup asks the hot tier first and is answered by it alone where it has anything for the key:
//! the hot tier is one that keeps or drops all variants of a key together. A cold entry that is
//! opened is copied into the hot tier on the way. What is stored goes to the hot tier, and from
//! there to the cold one in the background.
use vstd::prelude::*;

use crate::engine::policy_views;
use crate::policy::{CachePolicy, PolicyView, Selection};

verus! {

/// A tier of storage.
#[derive(Clone, Copy, Debug, PartialEq, Eq, Structural)]
pub enum Tier {
    Hot,
    Cold,
}

/// The tier that answers a lookup for which the hot tier has this many entries.
pub fn answering_tier(hot_entries: usize) -> (r: Tier)
    ensures
        r == if hot_entries > 0 {
            Tier::Hot
        } else {
            Tier::Cold
        },
{
    if hot_entries > 0 {
        Tier::Hot
    } else {
        Tier::Cold
    }
}

/// The position of the first policy with the selection `vary`, or the number of policies.
pub open spec fn selection_index(policies: Seq<PolicyView>, vary: Selection) -> nat
    decreases policies.len(),
{
    if policies.len() == 0 || policies[0].vary == vary {
        0
    } else {
        1 + selection_index(policies.skip(1), vary)
    }
}

/// Which of the hot entries is the one that was just stored with this policy, to be copied into
/// the cold tier; `None` where it is gone already.
pub fn entry_to_flush(policies: &Vec<&CachePolicy>, policy: &CachePolicy) -> (r: Option<usize>)
    ensures
        match r {
            Some(index) => index < policies@.len() && index == selection_index(
                policy_views(policies@),
                policy@.vary,
            ),
            None => selection_index(policy_views(policies@), policy@.vary) == policies@.len(),
        },
{
    let ghost all = policy_views(policies@);
    let mut i: usize = 0;
    assert(all.skip(0) =~= all);
    while i < policies.len()
        invariant
            i <= policies.len(),
            all == policy_views(policies@),
            selection_index(all, policy@.vary) == i + selection_index(
                all.skip(i as int),
                policy@.vary,
            ),
        decreases policies.len() - i,
    {
        assert(all.skip(i as int)[0] == policies@[i as int]@);
        if policies[i].same_variant_as(policy) {
            return Some(i);
        }
        assert(all.skip(i as int).skip(1) =~= all.skip(i as int + 1));
        i += 1;
    }
    None
}

} // verus!
