use price_feed::fetch::{fetch_auctions_list, PageAction, PageEvent, PageProgress};
use price_feed::price::Price;
use price_feed::pricing::Listing;

fn listing(blob: &str) -> Listing {
    Listing { is_fixed_price: true, starting_bid: Price::zero(), item_blob: blob.to_string() }
}

fn blobs(listings: &[Listing]) -> Vec<String> {
    listings.iter().map(|l| l.item_blob.clone()).collect()
}

#[test]
fn a_start_asks_for_the_first_page() {
    let mut progress = PageProgress::new();
    let action = fetch_auctions_list(&mut progress, PageEvent::Start);
    assert!(matches!(action, PageAction::Request { page: 0 }));
}

#[test]
fn pages_are_asked_for_up_to_the_reported_count() {
    let mut progress = PageProgress::new();
    fetch_auctions_list(&mut progress, PageEvent::Start);
    let action = fetch_auctions_list(&mut progress, PageEvent::Page { listings: vec![listing("a")], total_pages: 3 });
    assert!(matches!(action, PageAction::Request { page: 1 }));
    let action = fetch_auctions_list(&mut progress, PageEvent::Page { listings: vec![listing("b")], total_pages: 3 });
    assert!(matches!(action, PageAction::Request { page: 2 }));
    let action = fetch_auctions_list(&mut progress, PageEvent::Page { listings: vec![listing("c")], total_pages: 3 });
    match action {
        PageAction::Deliver { listings } => assert_eq!(blobs(&listings), ["a", "b", "c"]),
        other => panic!("{:?}", other),
    }
}

#[test]
fn the_latest_count_decides_when_it_shrinks() {
    let mut progress = PageProgress::new();
    fetch_auctions_list(&mut progress, PageEvent::Start);
    let action = fetch_auctions_list(&mut progress, PageEvent::Page { listings: vec![listing("a")], total_pages: 5 });
    assert!(matches!(action, PageAction::Request { page: 1 }));
    let action = fetch_auctions_list(&mut progress, PageEvent::Page { listings: vec![listing("b")], total_pages: 2 });
    match action {
        PageAction::Deliver { listings } => assert_eq!(blobs(&listings), ["a", "b"]),
        other => panic!("{:?}", other),
    }
}

#[test]
fn the_latest_count_decides_when_it_grows() {
    let mut progress = PageProgress::new();
    fetch_auctions_list(&mut progress, PageEvent::Start);
    let action = fetch_auctions_list(&mut progress, PageEvent::Page { listings: vec![listing("a")], total_pages: 2 });
    assert!(matches!(action, PageAction::Request { page: 1 }));
    let action = fetch_auctions_list(&mut progress, PageEvent::Page { listings: vec![listing("b")], total_pages: 3 });
    assert!(matches!(action, PageAction::Request { page: 2 }));
    let action = fetch_auctions_list(&mut progress, PageEvent::Page { listings: vec![], total_pages: 3 });
    match action {
        PageAction::Deliver { listings } => assert_eq!(blobs(&listings), ["a", "b"]),
        other => panic!("{:?}", other),
    }
}

#[test]
fn a_single_page_is_delivered_at_once() {
    let mut progress = PageProgress::new();
    fetch_auctions_list(&mut progress, PageEvent::Start);
    let action = fetch_auctions_list(&mut progress, PageEvent::Page { listings: vec![listing("a")], total_pages: 1 });
    match action {
        PageAction::Deliver { listings } => assert_eq!(blobs(&listings), ["a"]),
        other => panic!("{:?}", other),
    }
    assert!(progress.gathered.is_empty());
}

#[test]
fn a_count_of_nothing_ends_the_fetch() {
    for total in [0, -1, i64::MIN] {
        let mut progress = PageProgress::new();
        fetch_auctions_list(&mut progress, PageEvent::Start);
        let action = fetch_auctions_list(&mut progress, PageEvent::Page { listings: vec![], total_pages: total });
        match action {
            PageAction::Deliver { listings } => assert!(listings.is_empty()),
            other => panic!("{:?}", other),
        }
    }
}

#[test]
fn a_failure_discards_what_was_gathered() {
    let mut progress = PageProgress::new();
    fetch_auctions_list(&mut progress, PageEvent::Start);
    fetch_auctions_list(&mut progress, PageEvent::Page { listings: vec![listing("a")], total_pages: 4 });
    assert_eq!(progress.gathered.len(), 1);
    let action = fetch_auctions_list(&mut progress, PageEvent::Failure);
    assert!(matches!(action, PageAction::Abandon));
    assert!(progress.gathered.is_empty());
}

#[test]
fn a_new_start_begins_from_nothing() {
    let mut progress = PageProgress::new();
    fetch_auctions_list(&mut progress, PageEvent::Start);
    fetch_auctions_list(&mut progress, PageEvent::Page { listings: vec![listing("a")], total_pages: 4 });
    let action = fetch_auctions_list(&mut progress, PageEvent::Start);
    assert!(matches!(action, PageAction::Request { page: 0 }));
    assert_eq!(progress.page, 0);
    assert!(progress.gathered.is_empty());
}

#[test]
fn the_last_page_index_does_not_overflow() {
    let mut progress = PageProgress { page: i64::MAX - 1, gathered: Vec::new() };
    let action = fetch_auctions_list(&mut progress, PageEvent::Page { listings: vec![], total_pages: i64::MAX });
    assert!(matches!(action, PageAction::Deliver { .. }));
    let mut progress = PageProgress { page: i64::MAX - 2, gathered: Vec::new() };
    let action = fetch_auctions_list(&mut progress, PageEvent::Page { listings: vec![], total_pages: i64::MAX });
    assert!(matches!(action, PageAction::Request { page } if page == i64::MAX - 1));
}
