//! Counting what was served.
//!
//! Every request that is served adds one to the count of its route. The
//! counts are reported as they stand and start again from nothing when the
//! reporting period ends.

use crate::table::Table;
use vstd::prelude::*;

verus! {

/// The count of each route in the current period.
pub struct UsageTracker {
    counts: Table<u64>,
}

impl View for UsageTracker {
    type V = Map<Seq<char>, u64>;

    /// The count of each route that was served in this period.
    closed spec fn view(&self) -> Map<Seq<char>, u64> {
        self.counts@
    }
}

impl UsageTracker {
    /// A tracker that has counted nothing.
    pub fn new() -> (tracker: Self)
        ensures
            tracker@ == Map::<Seq<char>, u64>::empty(),
    {
        UsageTracker { counts: Table::new() }
    }
}

/// The count of a route: 0 for one that was not served in this period.
pub open spec fn count_of(usage: Map<Seq<char>, u64>, route: Seq<char>) -> u64 {
    if usage.dom().contains(route) {
        usage[route]
    } else {
        0
    }
}

/// A count after one more request. The greatest count that can be held
/// stays what it is.
pub open spec fn one_more(count: u64) -> u64 {
    if count < u64::MAX {
        (count + 1) as u64
    } else {
        count
    }
}

/// Counts one served request of the route `key`.
pub fn add_usage(tracker: &mut UsageTracker, key: &str)
    ensures
        final(tracker)@ == old(tracker)@.insert(key@, one_more(count_of(old(tracker)@, key@))),
{
    let count: u64 = get_usage(tracker, key);
    let next: u64 = if count < u64::MAX {
        count + 1
    } else {
        count
    };
    tracker.counts.insert(key.to_owned(), next);
}

/// The count of the route `key` in this period.
pub fn get_usage(tracker: &UsageTracker, key: &str) -> (count: u64)
    ensures
        count == count_of(tracker@, key@),
{
    match tracker.counts.get(key) {
        Some(count) => *count,
        None => 0,
    }
}

/// Ends the period: every count starts again from nothing.
pub fn reset_usage(tracker: &mut UsageTracker)
    ensures
        final(tracker)@ == Map::<Seq<char>, u64>::empty(),
{
    tracker.counts = Table::new();
}

/// A served request adds one to the count of its route and leaves the
/// count of every other route as it is, and a route that was not served
/// since the last reset counts 0.
pub proof fn law_count_follows_requests(usage: Map<Seq<char>, u64>, route: Seq<char>, other: Seq<char>)
    ensures
        count_of(usage.insert(route, one_more(count_of(usage, route))), route) == one_more(
            count_of(usage, route),
        ),
        other != route ==> count_of(usage.insert(other, one_more(count_of(usage, other))), route)
            == count_of(usage, route),
        count_of(Map::<Seq<char>, u64>::empty(), route) == 0,
{
}

} // verus!
