use price_feed::election::{refresh_perks, Election, Perks};

fn election(mayor: &[&str], minister: Option<&str>) -> Election {
    Election {
        mayor_perks: mayor.iter().map(|name| name.to_string()).collect(),
        minister_perk: minister.map(|name| name.to_string()),
    }
}

#[test]
fn no_perks_at_first() {
    let perks = Perks::new();
    assert!(perks.list().is_empty());
    assert!(!perks.contains("Fishing XP Buff"));
}

#[test]
fn a_fetch_replaces_the_perks() {
    let mut perks = Perks::new();
    refresh_perks(&mut perks, Some(&election(&["Sweet Benevolence", "Chivalrous Carnival"], Some("Long Term Investment"))));
    assert_eq!(perks.list(), ["Sweet Benevolence", "Chivalrous Carnival", "Long Term Investment"]);
    refresh_perks(&mut perks, Some(&election(&["Prospection"], None)));
    assert_eq!(perks.list(), ["Prospection"]);
    assert!(perks.contains("Prospection"));
    assert!(!perks.contains("Sweet Benevolence"));
}

#[test]
fn a_perk_is_held_once() {
    let mut perks = Perks::new();
    refresh_perks(&mut perks, Some(&election(&["A", "B", "A"], Some("B"))));
    assert_eq!(perks.list(), ["A", "B"]);
}

#[test]
fn a_failed_fetch_keeps_the_perks() {
    let mut perks = Perks::new();
    refresh_perks(&mut perks, Some(&election(&["A"], Some("M"))));
    refresh_perks(&mut perks, None);
    assert_eq!(perks.list(), ["A", "M"]);
}

#[test]
fn an_election_without_perks_leaves_none() {
    let mut perks = Perks::new();
    refresh_perks(&mut perks, Some(&election(&["A"], None)));
    refresh_perks(&mut perks, Some(&election(&[], None)));
    assert!(perks.list().is_empty());
}
