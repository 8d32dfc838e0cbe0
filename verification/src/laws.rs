//! What holds of the library as a whole.
//!
//! Each function here is a law: its parameters are what the law speaks of, and its `ensures` says
//! it over calls of the executable functions or over the spec functions that their contracts use.
pub mod buckets;
pub mod capturing;
pub mod configuring;
pub mod dictionaries;
pub mod directives;
pub mod files;
pub mod forwarding;
pub mod freshness;
pub mod handling;
pub mod heuristics;
pub mod lifetimes;
pub mod lookups;
pub mod naming;
pub mod replying;
pub mod restoring;
pub mod reuse;
pub mod revalidation;
pub mod serving;
pub mod storing;
pub mod tags;
pub mod targeted;
pub mod teeing;
pub mod telling;
pub mod tiers;
pub mod times;
pub mod wording;
