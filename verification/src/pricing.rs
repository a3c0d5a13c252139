//! Price records and the cache that holds them.
//!
//! Each category of upstream data is folded into one record: a map from an
//! item's identifier to what is known of its price. The cache keeps the last
//! record of each category. A refresh replaces a category's record as a
//! whole, and only when the upstream fetch brought something: a fetch that
//! failed, or that came back with no entries at all, leaves the cache as it
//! is. This holds for every category alike.

use crate::identity::{id_of_blob, resolve_item_id};
use crate::price::Price;
use crate::table::Table;
use vstd::prelude::*;

verus! {

/// A raw auction listing.
#[derive(Debug)]
pub struct Listing {
    /// Whether the item can be bought at once at the stated price; a
    /// listing that is not is an auction by bids.
    pub is_fixed_price: bool,
    /// The stated price.
    pub starting_bid: Price,
    /// The item's metadata, as sent.
    pub item_blob: String,
}

/// A product of the order book, with the unit prices of its orders in the
/// order in which upstream sent them (best first).
#[derive(Debug)]
pub struct Product {
    pub id: String,
    pub buy_orders: Vec<Price>,
    pub sell_orders: Vec<Price>,
}

/// An item of the shop list, with the prices that upstream supplies for it.
#[derive(Debug)]
pub struct ShopItem {
    pub id: String,
    pub coin: Option<Price>,
    pub mote: Option<Price>,
}

/// What a record knows of one item.
#[derive(Clone, Copy, Debug)]
pub enum PriceEntry {
    /// The lowest fixed price seen for the item.
    Lowest(Price),
    /// The best buy and sell prices of the order book.
    Quote { buy: Price, sell: Price },
    /// The shop's prices, of which at least one is there.
    Shop { coin: Option<Price>, mote: Option<Price> },
}

/// The model of a record.
pub type Record = Map<Seq<char>, PriceEntry>;

/// The category of the auction listings.
pub open spec fn auction_category() -> Seq<char> {
    "auction"@
}

/// The category of the order book.
pub open spec fn bazaar_category() -> Seq<char> {
    "bazaar"@
}

/// The category of the shop list.
pub open spec fn npc_category() -> Seq<char> {
    "npc"@
}

/// What a listing tells of a price: its identifier and its stated price,
/// where it is a fixed-price listing whose metadata yields an identifier.
pub open spec fn observation(listing: Listing) -> Option<(Seq<char>, Price)> {
    if listing.is_fixed_price {
        match id_of_blob(listing.item_blob@) {
            Ok(id) => Some((id, listing.starting_bid)),
            Err(_) => None,
        }
    } else {
        None
    }
}

/// What the listings tell, in their order.
pub open spec fn observations(listings: Seq<Listing>) -> Seq<(Seq<char>, Price)>
    decreases listings.len(),
{
    if listings.len() == 0 {
        Seq::empty()
    } else {
        match observation(listings.last()) {
            Some(seen) => observations(listings.drop_last()).push(seen),
            None => observations(listings.drop_last()),
        }
    }
}

/// The entry of an item after one more price was seen: the first price
/// seeds it, a later one replaces it only where it is lower.
pub open spec fn lowest_entry(known: Option<PriceEntry>, price: Price) -> PriceEntry {
    match known {
        Some(PriceEntry::Lowest(lowest)) => PriceEntry::Lowest(lowest.lower(price)),
        _ => PriceEntry::Lowest(price),
    }
}

/// What `record` knows of `id`.
pub open spec fn known(record: Record, id: Seq<char>) -> Option<PriceEntry> {
    if record.dom().contains(id) {
        Some(record[id])
    } else {
        None
    }
}

/// The record of the lowest price seen for each identifier.
pub open spec fn lowest_prices(seen: Seq<(Seq<char>, Price)>) -> Record
    decreases seen.len(),
{
    if seen.len() == 0 {
        Map::empty()
    } else {
        let earlier = lowest_prices(seen.drop_last());
        earlier.insert(seen.last().0, lowest_entry(known(earlier, seen.last().0), seen.last().1))
    }
}

/// The best of a side's orders: the unit price of the first, or 0.0 where
/// the side has none.
pub open spec fn best(orders: Seq<Price>) -> Price {
    if orders.len() > 0 {
        orders[0]
    } else {
        Price::nil()
    }
}

/// The entry of a product.
pub open spec fn quote_of(product: Product) -> PriceEntry {
    PriceEntry::Quote { buy: best(product.buy_orders@), sell: best(product.sell_orders@) }
}

/// The record of the order book: every product has an entry.
pub open spec fn order_book(products: Seq<Product>) -> Record
    decreases products.len(),
{
    if products.len() == 0 {
        Map::empty()
    } else {
        order_book(products.drop_last()).insert(products.last().id@, quote_of(products.last()))
    }
}

/// The entry of a shop item: none where upstream supplies neither price.
pub open spec fn shop_entry(item: ShopItem) -> Option<PriceEntry> {
    if item.coin is Some || item.mote is Some {
        Some(PriceEntry::Shop { coin: item.coin, mote: item.mote })
    } else {
        None
    }
}

/// The record of the shop list.
pub open spec fn shop_prices(items: Seq<ShopItem>) -> Record
    decreases items.len(),
{
    if items.len() == 0 {
        Map::empty()
    } else {
        match shop_entry(items.last()) {
            Some(entry) => shop_prices(items.drop_last()).insert(items.last().id@, entry),
            None => shop_prices(items.drop_last()),
        }
    }
}

/// The observations of a vector, each identifier taken by its view.
pub open spec fn seen_view(seen: Seq<(String, Price)>) -> Seq<(Seq<char>, Price)> {
    seen.map_values(|o: (String, Price)| (o.0@, o.1))
}

/// What the listings tell: for each fixed-price listing its identifier and
/// price. A listing whose metadata cannot be read tells nothing.
pub fn observe(listings: &Vec<Listing>) -> (seen: Vec<(String, Price)>)
    ensures
        seen_view(seen@) == observations(listings@),
{
    let mut seen: Vec<(String, Price)> = Vec::new();
    let mut i: usize = 0;
    assert(seen_view(seen@) =~= observations(listings@.take(0)));
    while i < listings.len()
        invariant
            i <= listings.len(),
            seen_view(seen@) == observations(listings@.take(i as int)),
        decreases listings.len() - i,
    {
        let listing = &listings[i];
        proof {
            let next = listings@.take(i + 1);
            assert(next.drop_last() =~= listings@.take(i as int));
            assert(next.last() == *listing);
        }
        if listing.is_fixed_price {
            match resolve_item_id(listing.item_blob.as_str()) {
                Ok(id) => {
                    let ghost before = seen_view(seen@);
                    seen.push((id, listing.starting_bid));
                    assert(seen_view(seen@) =~= before.push((id@, listing.starting_bid)));
                },
                Err(_) => {},
            }
        }
        i += 1;
    }
    assert(listings@.take(i as int) =~= listings@);
    seen
}

/// The record of the lowest price seen for each identifier.
pub fn lowest_prices_of(seen: &Vec<(String, Price)>) -> (record: Table<PriceEntry>)
    ensures
        record@ == lowest_prices(seen_view(seen@)),
{
    let mut record: Table<PriceEntry> = Table::new();
    let mut i: usize = 0;
    assert(seen_view(seen@).take(0) =~= Seq::<(Seq<char>, Price)>::empty());
    while i < seen.len()
        invariant
            i <= seen.len(),
            record@ == lowest_prices(seen_view(seen@).take(i as int)),
        decreases seen.len() - i,
    {
        let price = seen[i].1;
        proof {
            let next = seen_view(seen@).take(i + 1);
            assert(next.drop_last() =~= seen_view(seen@).take(i as int));
            assert(next.last() == (seen@[i as int].0@, price));
        }
        let entry = match record.get(seen[i].0.as_str()) {
            Some(PriceEntry::Lowest(lowest)) => PriceEntry::Lowest(lowest.min(price)),
            _ => PriceEntry::Lowest(price),
        };
        record.insert(seen[i].0.clone(), entry);
        i += 1;
    }
    assert(seen_view(seen@).take(i as int) =~= seen_view(seen@));
    record
}

/// The record of the auction listings: the lowest fixed price of each item.
pub fn aggregate_auctions(listings: &Vec<Listing>) -> (record: Table<PriceEntry>)
    ensures
        record@ == lowest_prices(observations(listings@)),
{
    let seen = observe(listings);
    lowest_prices_of(&seen)
}

/// The best of a side's orders.
pub fn best_of(orders: &Vec<Price>) -> (price: Price)
    ensures
        price == best(orders@),
        orders@.len() == 0 ==> price == Price::nil(),
{
    if orders.len() > 0 {
        orders[0]
    } else {
        Price::zero()
    }
}

/// The buy and sell prices of an entry, 0.0 for each that the entry does
/// not hold.
pub open spec fn pair_of(entry: PriceEntry) -> (Price, Price) {
    match entry {
        PriceEntry::Quote { buy, sell } => (buy, sell),
        _ => (Price::nil(), Price::nil()),
    }
}

/// The buy and sell prices of an entry, as older clients expect them: a
/// pair, with 0.0 for each price that the entry does not hold.
pub fn quote_pair(entry: &PriceEntry) -> (pair: (Price, Price))
    ensures
        pair == pair_of(*entry),
{
    match entry {
        PriceEntry::Quote { buy, sell } => (*buy, *sell),
        _ => (Price::zero(), Price::zero()),
    }
}

/// The record of the order book. A product without orders on a side has the
/// price 0.0 on that side; no product is left out.
pub fn aggregate_order_book(products: &Vec<Product>) -> (record: Table<PriceEntry>)
    ensures
        record@ == order_book(products@),
{
    let mut record: Table<PriceEntry> = Table::new();
    let mut i: usize = 0;
    assert(products@.take(0) =~= Seq::<Product>::empty());
    while i < products.len()
        invariant
            i <= products.len(),
            record@ == order_book(products@.take(i as int)),
        decreases products.len() - i,
    {
        let product = &products[i];
        proof {
            let next = products@.take(i + 1);
            assert(next.drop_last() =~= products@.take(i as int));
            assert(next.last() == *product);
        }
        let entry = PriceEntry::Quote {
            buy: best_of(&product.buy_orders),
            sell: best_of(&product.sell_orders),
        };
        record.insert(product.id.clone(), entry);
        i += 1;
    }
    assert(products@.take(i as int) =~= products@);
    record
}

/// The record of the shop list. An item for which upstream supplies neither
/// price has no entry.
pub fn aggregate_shop(items: &Vec<ShopItem>) -> (record: Table<PriceEntry>)
    ensures
        record@ == shop_prices(items@),
{
    let mut record: Table<PriceEntry> = Table::new();
    let mut i: usize = 0;
    assert(items@.take(0) =~= Seq::<ShopItem>::empty());
    while i < items.len()
        invariant
            i <= items.len(),
            record@ == shop_prices(items@.take(i as int)),
        decreases items.len() - i,
    {
        let item = &items[i];
        proof {
            let next = items@.take(i + 1);
            assert(next.drop_last() =~= items@.take(i as int));
            assert(next.last() == *item);
        }
        if item.coin.is_some() || item.mote.is_some() {
            record.insert(item.id.clone(), PriceEntry::Shop { coin: item.coin, mote: item.mote });
        }
        i += 1;
    }
    assert(items@.take(i as int) =~= items@);
    record
}

/// The price records of all categories.
pub struct PriceCache {
    records: Table<Table<PriceEntry>>,
}

impl View for PriceCache {
    type V = Map<Seq<char>, Record>;

    /// The record of each category that was ever filled.
    closed spec fn view(&self) -> Map<Seq<char>, Record> {
        self.records@.map_values(|record: Table<PriceEntry>| record@)
    }
}

impl PriceCache {
    /// A cache in which no category was ever filled.
    pub fn new() -> (cache: Self)
        ensures
            cache@ == Map::<Seq<char>, Record>::empty(),
    {
        let cache = PriceCache { records: Table::new() };
        assert(cache@ =~= Map::<Seq<char>, Record>::empty());
        cache
    }
}

/// The record of a category: empty for one that was never filled.
pub open spec fn record_of(cache: Map<Seq<char>, Record>, category: Seq<char>) -> Record {
    if cache.dom().contains(category) {
        cache[category]
    } else {
        Map::empty()
    }
}

/// The cache after a refresh of `category`: a new record takes the place of
/// the old one, and without a new record nothing changes.
pub open spec fn refreshed(
    cache: Map<Seq<char>, Record>,
    category: Seq<char>,
    record: Option<Record>,
) -> Map<Seq<char>, Record> {
    match record {
        Some(record) => cache.insert(category, record),
        None => cache,
    }
}

/// The record of a category, empty for one that was never filled.
pub fn get_pricing(cache: &PriceCache, pricing_type: &str) -> (record: Table<PriceEntry>)
    ensures
        record@ == record_of(cache@, pricing_type@),
{
    match cache.records.get(pricing_type) {
        Some(record) => record.duplicate(),
        None => Table::new(),
    }
}

/// Puts `record` in the place of the category's record.
pub fn update_pricing(cache: &mut PriceCache, pricing_type: &str, record: Table<PriceEntry>)
    ensures
        final(cache)@ == old(cache)@.insert(pricing_type@, record@),
{
    cache.records.insert(pricing_type.to_owned(), record);
    assert(cache@ =~= old(cache)@.insert(pricing_type@, record@));
}

/// The records of the three categories that are served.
pub struct Pricing {
    pub auction: Table<PriceEntry>,
    pub bazaar: Table<PriceEntry>,
    pub npc: Table<PriceEntry>,
}

/// The records of the three categories that are served, each empty where
/// the category was never filled.
pub fn get_all_pricing(cache: &PriceCache) -> (all: Pricing)
    ensures
        all.auction@ == record_of(cache@, auction_category()),
        all.bazaar@ == record_of(cache@, bazaar_category()),
        all.npc@ == record_of(cache@, npc_category()),
{
    Pricing {
        auction: get_pricing(cache, "auction"),
        bazaar: get_pricing(cache, "bazaar"),
        npc: get_pricing(cache, "npc"),
    }
}

/// The record that a fetch of listings brings: none where the fetch failed
/// or brought no listing.
pub open spec fn auction_outcome(fetched: Option<Seq<Listing>>) -> Option<Record> {
    match fetched {
        Some(listings) => if listings.len() > 0 {
            Some(lowest_prices(observations(listings)))
        } else {
            None
        },
        None => None,
    }
}

/// The record that a fetch of the order book brings: none where the fetch
/// failed or brought no product.
pub open spec fn bazaar_outcome(fetched: Option<Seq<Product>>) -> Option<Record> {
    match fetched {
        Some(products) => if products.len() > 0 {
            Some(order_book(products))
        } else {
            None
        },
        None => None,
    }
}

/// The record that a fetch of the shop list brings: none where the fetch
/// failed or brought no item.
pub open spec fn npc_outcome(fetched: Option<Seq<ShopItem>>) -> Option<Record> {
    match fetched {
        Some(items) => if items.len() > 0 {
            Some(shop_prices(items))
        } else {
            None
        },
        None => None,
    }
}

/// The view of what a fetch brought.
pub open spec fn fetched_view<T>(fetched: Option<&Vec<T>>) -> Option<Seq<T>> {
    match fetched {
        Some(entries) => Some(entries@),
        None => None,
    }
}

/// The view of a record that may be missing.
pub open spec fn record_view(record: Option<Table<PriceEntry>>) -> Option<Record> {
    match record {
        Some(record) => Some(record@),
        None => None,
    }
}

/// The record that a fetch of listings brings. `fetched` is what the fetch
/// brought, `None` where it failed.
pub fn auction_record(fetched: Option<&Vec<Listing>>) -> (record: Option<Table<PriceEntry>>)
    ensures
        record_view(record) == auction_outcome(fetched_view(fetched)),
{
    match fetched {
        Some(listings) => if listings.len() > 0 {
            Some(aggregate_auctions(listings))
        } else {
            None
        },
        None => None,
    }
}

/// The record that a fetch of the order book brings. `fetched` is what the
/// fetch brought, `None` where it failed.
pub fn bazaar_record(fetched: Option<&Vec<Product>>) -> (record: Option<Table<PriceEntry>>)
    ensures
        record_view(record) == bazaar_outcome(fetched_view(fetched)),
{
    match fetched {
        Some(products) => if products.len() > 0 {
            Some(aggregate_order_book(products))
        } else {
            None
        },
        None => None,
    }
}

/// The record that a fetch of the shop list brings. `fetched` is what the
/// fetch brought, `None` where it failed.
pub fn npc_record(fetched: Option<&Vec<ShopItem>>) -> (record: Option<Table<PriceEntry>>)
    ensures
        record_view(record) == npc_outcome(fetched_view(fetched)),
{
    match fetched {
        Some(items) => if items.len() > 0 {
            Some(aggregate_shop(items))
        } else {
            None
        },
        None => None,
    }
}

/// Ends a cycle: a new record takes the place of the category's record, and
/// without a new record the whole cache stays untouched. This is all that a
/// cycle does to the cache, so a job can work out its record first and hold
/// the cache only for this call.
pub fn store_record(cache: &mut PriceCache, pricing_type: &str, record: Option<Table<PriceEntry>>)
    ensures
        final(cache)@ == refreshed(old(cache)@, pricing_type@, record_view(record)),
        record is None ==> *final(cache) == *old(cache),
{
    match record {
        Some(record) => update_pricing(cache, pricing_type, record),
        None => {},
    }
}

/// One cycle of the auction listings. `fetched` is what the fetch brought,
/// `None` where it failed. A failed or empty fetch leaves the whole cache
/// untouched.
pub fn refresh_auction_house(cache: &mut PriceCache, fetched: Option<&Vec<Listing>>)
    ensures
        final(cache)@ == refreshed(
            old(cache)@,
            auction_category(),
            auction_outcome(fetched_view(fetched)),
        ),
        auction_outcome(fetched_view(fetched)) is None ==> *final(cache) == *old(cache),
{
    store_record(cache, "auction", auction_record(fetched));
}

/// One cycle of the order book. `fetched` is what the fetch brought, `None`
/// where it failed. A failed or empty fetch leaves the whole cache
/// untouched.
pub fn refresh_bazaar(cache: &mut PriceCache, fetched: Option<&Vec<Product>>)
    ensures
        final(cache)@ == refreshed(
            old(cache)@,
            bazaar_category(),
            bazaar_outcome(fetched_view(fetched)),
        ),
        bazaar_outcome(fetched_view(fetched)) is None ==> *final(cache) == *old(cache),
{
    store_record(cache, "bazaar", bazaar_record(fetched));
}

/// One cycle of the shop list. `fetched` is what the fetch brought, `None`
/// where it failed. A failed or empty fetch leaves the whole cache
/// untouched.
pub fn refresh_npc(cache: &mut PriceCache, fetched: Option<&Vec<ShopItem>>)
    ensures
        final(cache)@ == refreshed(old(cache)@, npc_category(), npc_outcome(fetched_view(fetched))),
        npc_outcome(fetched_view(fetched)) is None ==> *final(cache) == *old(cache),
{
    store_record(cache, "npc", npc_record(fetched));
}

/// The category that a job refreshes.
pub fn category_of(job: Job) -> (category: &'static str)
    ensures
        category@ == match job {
            Job::AuctionHouse => auction_category(),
            Job::Bazaar => bazaar_category(),
            Job::Npc => npc_category(),
        },
{
    match job {
        Job::AuctionHouse => "auction",
        Job::Bazaar => "bazaar",
        Job::Npc => "npc",
    }
}

/// A job that refreshes one category, again and again.
#[derive(Clone, Copy, Debug, PartialEq, Eq, Structural)]
pub enum Job {
    AuctionHouse,
    Bazaar,
    Npc,
}

/// The pause between two cycles of a job, in milliseconds: short for the
/// order book, longer for the listings, long for the shop list.
pub open spec fn period_of(job: Job) -> u64 {
    match job {
        Job::AuctionHouse => 240_000,
        Job::Bazaar => 120_000,
        Job::Npc => 1_800_000,
    }
}

/// The pause between two cycles of a job, in milliseconds.
pub fn period_ms(job: Job) -> (period: u64)
    ensures
        period == period_of(job),
        period > 0,
{
    match job {
        Job::AuctionHouse => 240_000,
        Job::Bazaar => 120_000,
        Job::Npc => 1_800_000,
    }
}

/// Whether `seen` holds the price `price` for `id`.
pub open spec fn was_seen(seen: Seq<(Seq<char>, Price)>, id: Seq<char>, price: Price) -> bool {
    exists|i: int| 0 <= i < seen.len() && #[trigger] seen[i] == (id, price)
}

/// Whether `seen` holds `id`.
pub open spec fn was_listed(seen: Seq<(Seq<char>, Price)>, id: Seq<char>) -> bool {
    exists|i: int| 0 <= i < seen.len() && (#[trigger] seen[i]).0 == id
}

/// An entry of the record of lowest prices is the minimum of what was seen:
/// the record has an entry for exactly the identifiers that were seen, and
/// the entry of each is a price that was seen for it and that none of the
/// prices seen for it is below.
pub proof fn law_entry_is_the_minimum(seen: Seq<(Seq<char>, Price)>, id: Seq<char>)
    ensures
        lowest_prices(seen).dom().contains(id) <==> was_listed(seen, id),
        was_listed(seen, id) ==> (lowest_prices(seen)[id] matches PriceEntry::Lowest(lowest)
            && was_seen(seen, id, lowest) && forall|i: int|
            0 <= i < seen.len() && (#[trigger] seen[i]).0 == id ==> lowest.rank()
                <= seen[i].1.rank()),
    decreases seen.len(),
{
    if seen.len() > 0 {
        let rest = seen.drop_last();
        let last = seen.last();
        law_entry_is_the_minimum(rest, id);
        if was_listed(rest, id) {
            let i = choose|i: int| 0 <= i < rest.len() && (#[trigger] rest[i]).0 == id;
            assert(seen[i].0 == id);
        }
        if was_listed(seen, id) {
            let i = choose|i: int| 0 <= i < seen.len() && (#[trigger] seen[i]).0 == id;
            if i < rest.len() {
                assert(rest[i].0 == id);
            }
            let entry = lowest_prices(seen)[id];
            if last.0 == id {
                assert(seen[seen.len() - 1] == last);
                if was_listed(rest, id) {
                    let earlier = lowest_prices(rest)[id]->Lowest_0;
                    let j = choose|j: int| 0 <= j < rest.len() && #[trigger] rest[j] == (id, earlier);
                    assert(seen[j] == (id, earlier));
                    assert(entry == PriceEntry::Lowest(earlier.lower(last.1)));
                    assert forall|k: int|
                        0 <= k < seen.len() && (#[trigger] seen[k]).0 == id implies earlier.lower(
                        last.1,
                    ).rank() <= seen[k].1.rank() by {
                        if k < rest.len() {
                            assert(rest[k].0 == id);
                        }
                    }
                } else {
                    assert(entry == PriceEntry::Lowest(last.1));
                    assert forall|k: int|
                        0 <= k < seen.len() && (#[trigger] seen[k]).0 == id implies last.1.rank()
                        <= seen[k].1.rank() by {
                        if k < rest.len() {
                            assert(rest[k].0 == id);
                        }
                    }
                }
            } else {
                let lowest = lowest_prices(rest)[id]->Lowest_0;
                let j = choose|j: int| 0 <= j < rest.len() && #[trigger] rest[j] == (id, lowest);
                assert(seen[j] == (id, lowest));
                assert forall|k: int|
                    0 <= k < seen.len() && (#[trigger] seen[k]).0 == id implies lowest.rank()
                    <= seen[k].1.rank() by {
                    assert(rest[k].0 == id);
                }
            }
        }
    }
}

proof fn lemma_observations_push(listings: Seq<Listing>, listing: Listing)
    ensures
        observations(listings.push(listing)) == match observation(listing) {
            Some(seen) => observations(listings).push(seen),
            None => observations(listings),
        },
{
    assert(listings.push(listing).drop_last() =~= listings);
}

proof fn lemma_observations_add(first: Seq<Listing>, second: Seq<Listing>)
    ensures
        observations(first + second) == observations(first) + observations(second),
    decreases second.len(),
{
    if second.len() == 0 {
        assert(first + second =~= first);
        assert(observations(first) + observations(second) =~= observations(first));
    } else {
        let rest = second.drop_last();
        lemma_observations_add(first, rest);
        assert(first + second =~= (first + rest).push(second.last()));
        lemma_observations_push(first + rest, second.last());
        match observation(second.last()) {
            Some(seen) => {
                assert(observations(first) + observations(second) =~= (observations(first)
                    + observations(rest)).push(seen));
            },
            None => {},
        }
    }
}

/// A listing that tells nothing changes nothing: where a listing is an
/// auction by bids, or its metadata yields no identifier, the listings tell
/// the same with it as without it, wherever it stands among them, and so
/// the record is the same.
pub proof fn law_silent_listing_is_skipped(listings: Seq<Listing>, at: int)
    requires
        0 <= at < listings.len(),
        !listings[at].is_fixed_price || id_of_blob(listings[at].item_blob@) is Err,
    ensures
        observations(listings) == observations(listings.remove(at)),
        lowest_prices(observations(listings)) == lowest_prices(observations(listings.remove(at))),
{
    let before = listings.take(at);
    let after = listings.skip(at + 1);
    let one = seq![listings[at]];
    assert(listings =~= before + one + after);
    assert(listings.remove(at) =~= before + after);
    lemma_observations_add(before + one, after);
    lemma_observations_add(before, one);
    lemma_observations_add(before, after);
    assert(one.drop_last() =~= Seq::<Listing>::empty());
    assert(one.last() == listings[at]);
    assert(observations(Seq::<Listing>::empty()) =~= Seq::<(Seq<char>, Price)>::empty());
    assert(observations(one) =~= Seq::<(Seq<char>, Price)>::empty());
    assert(observations(before) + observations(one) =~= observations(before));
}

/// No product is left out of the order book's record, and a side without
/// orders is priced 0.0: every product has an entry, and the entry of a
/// product that no later product shares its identifier with is its quote.
pub proof fn law_every_product_is_quoted(products: Seq<Product>, at: int)
    requires
        0 <= at < products.len(),
    ensures
        order_book(products).dom().contains(products[at].id@),
        (forall|j: int| at < j < products.len() ==> (#[trigger] products[j]).id@ != products[at].id@)
            ==> order_book(products)[products[at].id@] == quote_of(products[at]),
        products[at].sell_orders@.len() == 0 ==> quote_of(products[at])->sell == Price::nil(),
        products[at].buy_orders@.len() == 0 ==> quote_of(products[at])->buy == Price::nil(),
    decreases products.len(),
{
    let rest = products.drop_last();
    if at < rest.len() {
        law_every_product_is_quoted(rest, at);
        if forall|j: int| at < j < products.len() ==> (#[trigger] products[j]).id@ != products[at].id@ {
            assert forall|j: int| at < j < rest.len() implies (#[trigger] rest[j]).id@
                != rest[at].id@ by {
                assert(products[j].id@ != products[at].id@);
            }
            assert(products[products.len() - 1].id@ != products[at].id@);
        }
    }
}

} // verus!
