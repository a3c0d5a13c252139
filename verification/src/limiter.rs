//! Sliding-window admission control.
//!
//! Every call that is let through records the moment at which it stops
//! counting: its time plus the length of its window. A client is denied
//! while the number of its records that still count has reached the limit.
//! A record whose moment has come is absent from every count, whether or not
//! it has been removed yet.

use crate::table::{has_key, lemma_entry_in_map, Table};
use crate::util::get_timestamp;
use vstd::prelude::*;
use vstd::string::StringExecFns;

verus! {

/// The record of one admitted call.
#[derive(Clone, Copy, Debug)]
pub struct Limit {
    /// When the call was admitted, in milliseconds.
    pub time: u128,
    /// For how long it counts, in milliseconds.
    pub ttl: u128,
}

impl Limit {
    /// The moment from which this record no longer counts.
    pub open spec fn expiry(self) -> int {
        self.time + self.ttl
    }

    /// Whether this record still counts at `now`.
    pub open spec fn live_at(self, now: int) -> bool {
        self.expiry() > now
    }

    /// A record of a call admitted at `time`.
    pub fn at(time: u128, ttl: u128) -> (r: Limit)
        ensures
            r == (Limit { time, ttl }),
    {
        Limit { time, ttl }
    }

    /// A record of a call admitted at this moment of the clock.
    pub fn new(ttl: u128) -> (r: Limit)
        ensures
            r.ttl == ttl,
    {
        Limit { time: get_timestamp(), ttl }
    }

    /// Whether this record still counts at `now`.
    pub fn is_live(&self, now: u128) -> (r: bool)
        ensures
            r == self.live_at(now as int),
    {
        now < self.time || now - self.time < self.ttl
    }
}

/// The records of `window` that still count at `now`, in their order.
pub open spec fn live(window: Seq<Limit>, now: int) -> Seq<Limit>
    decreases window.len(),
{
    if window.len() == 0 {
        Seq::empty()
    } else if window.last().live_at(now) {
        live(window.drop_last(), now).push(window.last())
    } else {
        live(window.drop_last(), now)
    }
}

/// The window of `key`: its records, none for a key that is not there.
pub open spec fn window_of(windows: Map<Seq<char>, Seq<Limit>>, key: Seq<char>) -> Seq<Limit> {
    if windows.dom().contains(key) {
        windows[key]
    } else {
        Seq::empty()
    }
}

/// How many calls of `key` count at `now`.
pub open spec fn usage(windows: Map<Seq<char>, Seq<Limit>>, key: Seq<char>, now: int) -> nat {
    live(window_of(windows, key), now).len()
}

/// Whether a call of `key` at `now` is denied under the limit `limit`.
pub open spec fn denied(
    windows: Map<Seq<char>, Seq<Limit>>,
    key: Seq<char>,
    now: int,
    limit: int,
) -> bool {
    usage(windows, key, now) >= limit
}

/// The windows after a call of `key` at `now`: the window of `key` loses the
/// records that no longer count, and gains one for this call unless the call
/// is denied. No other window changes.
pub open spec fn after_call(
    windows: Map<Seq<char>, Seq<Limit>>,
    key: Seq<char>,
    now: u128,
    ttl: u128,
    limit: int,
) -> Map<Seq<char>, Seq<Limit>> {
    let kept = live(window_of(windows, key), now as int);
    if kept.len() >= limit {
        if windows.dom().contains(key) {
            windows.insert(key, kept)
        } else {
            windows
        }
    } else {
        windows.insert(key, kept.push(Limit { time: now, ttl }))
    }
}

/// The windows after a sweep at `now`: every window keeps the records that
/// still count, and a key whose window is left empty is gone.
pub open spec fn swept(windows: Map<Seq<char>, Seq<Limit>>, now: int) -> Map<
    Seq<char>,
    Seq<Limit>,
> {
    Map::new(
        |k: Seq<char>| windows.dom().contains(k) && live(windows[k], now).len() > 0,
        |k: Seq<char>| live(windows[k], now),
    )
}

/// The records of `window` that still count at `now`.
fn prune(window: &Vec<Limit>, now: u128) -> (kept: Vec<Limit>)
    ensures
        kept@ == live(window@, now as int),
{
    let mut kept: Vec<Limit> = Vec::new();
    let mut i: usize = 0;
    while i < window.len()
        invariant
            i <= window.len(),
            kept@ == live(window@.take(i as int), now as int),
        decreases window.len() - i,
    {
        let record = window[i];
        proof {
            let next = window@.take(i + 1);
            assert(next.drop_last() =~= window@.take(i as int));
            assert(next.last() == record);
        }
        if record.is_live(now) {
            kept.push(record);
        }
        i += 1;
    }
    assert(window@.take(i as int) =~= window@);
    kept
}

/// The rate windows of all clients, by key.
pub struct RateLimits {
    windows: Table<Vec<Limit>>,
}

impl View for RateLimits {
    type V = Map<Seq<char>, Seq<Limit>>;

    /// The records of each key, oldest first.
    closed spec fn view(&self) -> Map<Seq<char>, Seq<Limit>> {
        self.windows@.map_values(|w: Vec<Limit>| w@)
    }
}

impl RateLimits {
    /// No windows.
    pub fn new() -> (r: Self)
        ensures
            r@ == Map::<Seq<char>, Seq<Limit>>::empty(),
    {
        let r = RateLimits { windows: Table::new() };
        assert(r@ =~= Map::<Seq<char>, Seq<Limit>>::empty());
        r
    }

    /// Whether `key` has a window.
    pub fn has_window(&self, key: &str) -> (r: bool)
        ensures
            r == self@.dom().contains(key@),
    {
        self.windows.contains_key(key)
    }

    /// How many calls of `key` count at `now`.
    pub fn usage_at(&self, key: &str, now: u128) -> (n: usize)
        ensures
            n == usage(self@, key@, now as int),
    {
        match self.windows.get(key) {
            Some(window) => prune(window, now).len(),
            None => 0,
        }
    }
}

/// The view of an optional text.
pub open spec fn address_view(address: Option<&str>) -> Option<Seq<char>> {
    match address {
        Some(text) => Some(text@),
        None => None,
    }
}

/// The address by which a client is counted: the address that the proxy
/// reports, where the proxy is trusted and reports one; else the peer's
/// address; else the word `unknown`.
pub open spec fn client_address(
    trust_proxy: bool,
    forwarded: Option<Seq<char>>,
    peer: Option<Seq<char>>,
) -> Seq<char> {
    if trust_proxy && forwarded is Some {
        forwarded.unwrap()
    } else {
        match peer {
            Some(address) => address,
            None => "unknown"@,
        }
    }
}

/// The address by which a client is counted. What the proxy reports is
/// looked at only where `trust_proxy` holds.
pub fn get_ip(trust_proxy: bool, forwarded: Option<&str>, peer: Option<&str>) -> (r: String)
    ensures
        r@ == client_address(trust_proxy, address_view(forwarded), address_view(peer)),
{
    match (trust_proxy, forwarded, peer) {
        (true, Some(address), _) => address.to_owned(),
        (_, _, Some(address)) => address.to_owned(),
        (_, _, None) => "unknown".to_owned(),
    }
}

/// The key under which a client's calls of one endpoint are counted: the
/// endpoint, a plus sign, the client's address.
pub fn new_key(endpoint: &str, address: &str) -> (key: String)
    ensures
        key@ == endpoint@ + seq!['+'] + address@,
{
    let mut key = endpoint.to_owned();
    proof {
        reveal_strlit("+");
    }
    key.append("+");
    key.append(address);
    assert(key@ =~= endpoint@ + seq!['+'] + address@);
    key
}

/// Decides a call of `key` made at `now`, and records it unless it is
/// denied.
pub fn is_limited_at(limits: &mut RateLimits, key: &str, now: u128, ttl: u128, limit: usize) -> (r:
    bool)
    ensures
        r == denied(old(limits)@, key@, now as int, limit as int),
        final(limits)@ == after_call(old(limits)@, key@, now, ttl, limit as int),
{
    let present = limits.windows.contains_key(key);
    let mut kept: Vec<Limit> = match limits.windows.get(key) {
        Some(window) => prune(window, now),
        None => Vec::new(),
    };
    assert(kept@ == live(window_of(old(limits)@, key@), now as int));
    if kept.len() >= limit {
        if present {
            limits.windows.insert(key.to_owned(), kept);
            assert(limits@ =~= old(limits)@.insert(key@, kept@));
        }
        true
    } else {
        kept.push(Limit { time: now, ttl });
        limits.windows.insert(key.to_owned(), kept);
        assert(limits@ =~= old(limits)@.insert(key@, kept@));
        false
    }
}

/// Decides a call of `key` made at this moment of the clock, and records it
/// unless it is denied. Whatever the clock says, the outcome is that of
/// `is_limited_at` for that moment.
pub fn is_limited(limits: &mut RateLimits, key: &String, ttl: u128, limit: usize) -> (r: bool)
    ensures
        exists|now: u128|
            r == denied(old(limits)@, key@, now as int, limit as int) && final(limits)@
                == #[trigger] after_call(old(limits)@, key@, now, ttl, limit as int),
{
    let now = get_timestamp();
    is_limited_at(limits, key.as_str(), now, ttl, limit)
}

/// Removes the records that no longer count at `now`, and the keys whose
/// window is left empty.
pub fn sweep(limits: &mut RateLimits, now: u128)
    ensures
        final(limits)@ == swept(old(limits)@, now as int),
{
    let mut fresh: Table<Vec<Limit>> = Table::new();
    let n = limits.windows.len();
    let ghost pairs = limits.windows.pairs();
    let mut i: usize = 0;
    while i < n
        invariant
            i <= n,
            n == pairs.len(),
            pairs == limits.windows.pairs(),
            crate::table::distinct_keys(pairs),
            forall|k: Seq<char>| #[trigger]
                fresh@.dom().contains(k) <==> exists|j: int|
                    0 <= j < i && (#[trigger] pairs[j]).0 == k && live(pairs[j].1@, now as int).len()
                        > 0,
            forall|j: int|
                0 <= j < i && live((#[trigger] pairs[j]).1@, now as int).len() > 0
                    ==> fresh@[pairs[j].0]@ == live(pairs[j].1@, now as int),
        decreases n - i,
    {
        let kept = prune(limits.windows.value_at(i), now);
        if kept.len() > 0 {
            let key = limits.windows.key_at(i).clone();
            let ghost earlier = fresh@;
            fresh.insert(key, kept);
            proof {
                assert forall|j: int|
                    0 <= j < i + 1 && live((#[trigger] pairs[j]).1@, now as int).len()
                        > 0 implies fresh@[pairs[j].0]@ == live(pairs[j].1@, now as int) by {
                    if j < i {
                        assert(pairs[j].0 != pairs[i as int].0);
                    }
                }
                assert forall|k: Seq<char>| #[trigger]
                    fresh@.dom().contains(k) <==> exists|j: int|
                        0 <= j < i + 1 && (#[trigger] pairs[j]).0 == k && live(
                            pairs[j].1@,
                            now as int,
                        ).len() > 0 by {
                    if fresh@.dom().contains(k) {
                        if k == pairs[i as int].0 {
                            assert(pairs[i as int].0 == k);
                        } else {
                            assert(earlier.dom().contains(k));
                        }
                    }
                }
            }
        } else {
            proof {
                assert forall|k: Seq<char>| #[trigger]
                    fresh@.dom().contains(k) <==> exists|j: int|
                        0 <= j < i + 1 && (#[trigger] pairs[j]).0 == k && live(
                            pairs[j].1@,
                            now as int,
                        ).len() > 0 by {}
            }
        }
        i += 1;
    }
    proof {
        let target = swept(old(limits)@, now as int);
        let got = fresh@.map_values(|w: Vec<Limit>| w@);
        assert forall|k: Seq<char>| got.dom().contains(k) <==> target.dom().contains(k) by {
            if got.dom().contains(k) {
                let j = choose|j: int|
                    0 <= j < n && (#[trigger] pairs[j]).0 == k && live(pairs[j].1@, now as int).len()
                        > 0;
                lemma_entry_in_map(pairs, j);
            }
            if target.dom().contains(k) {
                assert(has_key(pairs, k));
                let j = crate::table::index_of(pairs, k);
                lemma_entry_in_map(pairs, j);
            }
        }
        assert forall|k: Seq<char>| got.dom().contains(k) implies got[k] == target[k] by {
            let j = choose|j: int|
                0 <= j < n && (#[trigger] pairs[j]).0 == k && live(pairs[j].1@, now as int).len()
                    > 0;
            lemma_entry_in_map(pairs, j);
        }
        assert(got =~= target);
    }
    limits.windows = fresh;
}

/// Removes what no longer counts at this moment of the clock. Whatever the
/// clock says, the outcome is that of `sweep` for that moment.
pub fn sweep_now(limits: &mut RateLimits)
    ensures
        exists|now: u128| final(limits)@ == #[trigger] swept(old(limits)@, now as int),
{
    let now = get_timestamp();
    sweep(limits, now);
    assert(limits@ == swept(old(limits)@, now as int));
}

/// A route that is guarded by a limit.
#[derive(Clone, Copy, Debug, PartialEq, Eq, Structural)]
pub enum Route {
    /// The prices of all categories.
    ItemPricing,
    /// The counts of what was served.
    ApiUsage,
}

/// The limit of a route: the name of its endpoint, the length of its
/// window in milliseconds and the number of calls that a window admits.
pub struct RouteLimit {
    pub endpoint: &'static str,
    pub window_ms: u128,
    pub max_calls: usize,
}

/// The limit of a route: one call in thirty seconds for the prices, one
/// call in a second for the counts.
pub fn route_limit(route: Route) -> (limit: RouteLimit)
    ensures
        limit.endpoint@ == match route {
            Route::ItemPricing => "get-item-pricing"@,
            Route::ApiUsage => "get-api-usage"@,
        },
        limit.window_ms == match route {
            Route::ItemPricing => 30_000u128,
            Route::ApiUsage => 1_000u128,
        },
        limit.max_calls == 1,
{
    match route {
        Route::ItemPricing => RouteLimit {
            endpoint: "get-item-pricing",
            window_ms: 30_000,
            max_calls: 1,
        },
        Route::ApiUsage => RouteLimit { endpoint: "get-api-usage", window_ms: 1_000, max_calls: 1 },
    }
}

/// The windows after calls of `key` at each of `times`, in turn, all with
/// the same window length and limit.
pub open spec fn after_calls(
    windows: Map<Seq<char>, Seq<Limit>>,
    key: Seq<char>,
    times: Seq<u128>,
    ttl: u128,
    limit: int,
) -> Map<Seq<char>, Seq<Limit>>
    decreases times.len(),
{
    if times.len() == 0 {
        windows
    } else {
        after_call(after_calls(windows, key, times.drop_last(), ttl, limit), key, times.last(), ttl, limit)
    }
}

/// Whether each of the calls of `key` at `times`, in turn, is let through.
pub open spec fn all_admitted(
    windows: Map<Seq<char>, Seq<Limit>>,
    key: Seq<char>,
    times: Seq<u128>,
    ttl: u128,
    limit: int,
) -> bool
    decreases times.len(),
{
    times.len() == 0 || (all_admitted(windows, key, times.drop_last(), ttl, limit) && !denied(
        after_calls(windows, key, times.drop_last(), ttl, limit),
        key,
        times.last() as int,
        limit,
    ))
}

/// Whether no time of `times` is earlier than the one before it.
pub open spec fn nondecreasing(times: Seq<u128>) -> bool {
    forall|i: int, j: int| 0 <= i <= j < times.len() ==> times[i] <= times[j]
}

proof fn lemma_live_push(window: Seq<Limit>, record: Limit, now: int)
    ensures
        live(window.push(record), now) == if record.live_at(now) {
            live(window, now).push(record)
        } else {
            live(window, now)
        },
{
    assert(window.push(record).drop_last() =~= window);
}

proof fn lemma_live_twice(window: Seq<Limit>, earlier: int, later: int)
    requires
        earlier <= later,
    ensures
        live(live(window, earlier), later) == live(window, later),
    decreases window.len(),
{
    if window.len() > 0 {
        lemma_live_twice(window.drop_last(), earlier, later);
        if window.last().live_at(earlier) {
            lemma_live_push(live(window.drop_last(), earlier), window.last(), later);
        }
    }
}

proof fn lemma_admitted_calls_count(
    windows: Map<Seq<char>, Seq<Limit>>,
    key: Seq<char>,
    times: Seq<u128>,
    ttl: u128,
    limit: int,
    now: int,
)
    requires
        nondecreasing(times),
        all_admitted(windows, key, times, ttl, limit),
        times.len() > 0 ==> times.last() <= now < times[0] + ttl,
    ensures
        usage(after_calls(windows, key, times, ttl, limit), key, now) >= times.len(),
    decreases times.len(),
{
    if times.len() > 0 {
        let before = times.drop_last();
        let at = times.last();
        let state = after_calls(windows, key, before, ttl, limit);
        assert(nondecreasing(before)) by {
            assert forall|i: int, j: int| 0 <= i <= j < before.len() implies before[i]
                <= before[j] by {
                assert(times[i] <= times[j]);
            }
        }
        if before.len() > 0 {
            assert(before[0] == times[0]);
            assert(before.last() == times[before.len() - 1]);
            assert(times[before.len() - 1] <= times[times.len() - 1]);
        }
        lemma_admitted_calls_count(windows, key, before, ttl, limit, now);
        let kept = live(window_of(state, key), at as int);
        let record = Limit { time: at, ttl };
        assert(times[0] <= at);
        lemma_live_twice(window_of(state, key), at as int, now);
        lemma_live_push(kept, record, now);
    }
}

/// After as many admitted calls as the limit allows, a further call is
/// denied for as long as the first of them still counts: for every state,
/// key, window length and limit, if `limit` calls at times that never go
/// back were all let through, a call at any later moment before the first
/// call's window has run out is denied.
pub proof fn law_window_fills(
    windows: Map<Seq<char>, Seq<Limit>>,
    key: Seq<char>,
    times: Seq<u128>,
    ttl: u128,
    limit: int,
    now: int,
)
    requires
        times.len() == limit,
        nondecreasing(times),
        all_admitted(windows, key, times, ttl, limit),
        times.len() > 0 ==> times.last() <= now < times[0] + ttl,
    ensures
        denied(after_calls(windows, key, times, ttl, limit), key, now, limit),
{
    lemma_admitted_calls_count(windows, key, times, ttl, limit, now);
}

proof fn lemma_one_expires(window: Seq<Limit>, now: int, moment: int, oldest: int)
    requires
        now < moment,
        0 <= oldest < window.len() ==> window[oldest].expiry() == moment,
        forall|j: int|
            0 <= j < window.len() && j != oldest && (#[trigger] window[j]).live_at(now)
                ==> window[j].expiry() > moment,
    ensures
        live(window, moment).len() + (if 0 <= oldest < window.len() {
            1int
        } else {
            0int
        }) == live(window, now).len(),
    decreases window.len(),
{
    if window.len() > 0 {
        let rest = window.drop_last();
        assert forall|j: int|
            0 <= j < rest.len() && j != oldest && (#[trigger] rest[j]).live_at(now)
                implies rest[j].expiry() > moment by {
            assert(rest[j] == window[j]);
        }
        if 0 <= oldest < rest.len() {
            assert(rest[oldest] == window[oldest]);
        }
        lemma_one_expires(rest, now, moment, oldest);
        let last = window.len() - 1;
        if oldest != last {
            assert(window[last].live_at(now) ==> window[last].expiry() > moment);
        }
    }
}

proof fn lemma_none_expires(window: Seq<Limit>, now: int, later: int)
    requires
        now <= later,
        forall|j: int|
            0 <= j < window.len() && (#[trigger] window[j]).live_at(now) ==> window[j].expiry()
                > later,
    ensures
        live(window, later) == live(window, now),
    decreases window.len(),
{
    if window.len() > 0 {
        let rest = window.drop_last();
        assert forall|j: int| 0 <= j < rest.len() && (#[trigger] rest[j]).live_at(now) implies rest[j].expiry()
            > later by {
            assert(rest[j] == window[j]);
        }
        lemma_none_expires(rest, now, later);
        let last = window.len() - 1;
        assert(window[last].live_at(now) ==> window[last].expiry() > later);
    }
}

/// When the oldest record runs out, exactly one call becomes free again: if
/// among the records of `key` that count at `now` one runs out strictly
/// before all others, then up to that moment the usage stays what it is at
/// `now`, and at that moment it is one less.
pub proof fn law_expiry_frees_one(
    windows: Map<Seq<char>, Seq<Limit>>,
    key: Seq<char>,
    now: int,
    oldest: int,
)
    requires
        0 <= oldest < window_of(windows, key).len(),
        window_of(windows, key)[oldest].live_at(now),
        forall|j: int|
            0 <= j < window_of(windows, key).len() && j != oldest && (#[trigger] window_of(
                windows,
                key,
            )[j]).live_at(now) ==> window_of(windows, key)[j].expiry() > window_of(
                windows,
                key,
            )[oldest].expiry(),
    ensures
        usage(windows, key, window_of(windows, key)[oldest].expiry()) == usage(windows, key, now)
            - 1,
        forall|t: int|
            now <= t < window_of(windows, key)[oldest].expiry() ==> #[trigger] usage(
                windows,
                key,
                t,
            ) == usage(windows, key, now),
{
    let window = window_of(windows, key);
    let moment = window[oldest].expiry();
    lemma_one_expires(window, now, moment, oldest);
    assert forall|t: int| now <= t < moment implies #[trigger] usage(windows, key, t) == usage(
        windows,
        key,
        now,
    ) by {
        assert forall|j: int|
            0 <= j < window.len() && (#[trigger] window[j]).live_at(now) implies window[j].expiry()
            > t by {
            if j != oldest {
                assert(window[j].expiry() > moment);
            }
        }
        lemma_none_expires(window, now, t);
    }
}

} // verus!
