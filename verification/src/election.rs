//! The perks of the current election.
//!
//! The set of perk names is replaced as a whole by every fetch that
//! succeeds, and kept by one that fails.

use crate::table::{has_key, Table};
use vstd::prelude::*;

verus! {

/// The names of the perks that are in force.
pub struct Perks {
    names: Table<()>,
}

impl View for Perks {
    type V = Set<Seq<char>>;

    /// The set of the names.
    closed spec fn view(&self) -> Set<Seq<char>> {
        self.names@.dom()
    }
}

/// What a fetch of the election brought: the names of the mayor's perks,
/// and the name of the minister's perk, if there is a minister.
pub struct Election {
    pub mayor_perks: Vec<String>,
    pub minister_perk: Option<String>,
}

/// The set of the names in `names`.
pub open spec fn names_of(names: Seq<String>) -> Set<Seq<char>> {
    Set::new(|name: Seq<char>| exists|i: int| 0 <= i < names.len() && (#[trigger] names[i])@ == name)
}

/// The perks of an election: the mayor's, and the minister's.
pub open spec fn perks_of(election: Election) -> Set<Seq<char>> {
    match election.minister_perk {
        Some(perk) => names_of(election.mayor_perks@).insert(perk@),
        None => names_of(election.mayor_perks@),
    }
}

impl Perks {
    /// No perks.
    pub fn new() -> (perks: Self)
        ensures
            perks@ == Set::<Seq<char>>::empty(),
    {
        let perks = Perks { names: Table::new() };
        assert(perks@ =~= Set::<Seq<char>>::empty());
        perks
    }

    /// Whether `name` is among the perks.
    pub fn contains(&self, name: &str) -> (r: bool)
        ensures
            r == self@.contains(name@),
    {
        self.names.contains_key(name)
    }

    /// The names, each once.
    pub fn list(&self) -> (names: Vec<String>)
        ensures
            names_of(names@) == self@,
            names.len() == self@.len(),
            forall|i: int, j: int| 0 <= i < j < names.len() ==> names[i]@ != names[j]@,
    {
        let mut names: Vec<String> = Vec::new();
        let n = self.names.len();
        let ghost pairs = self.names.pairs();
        let mut i: usize = 0;
        while i < n
            invariant
                i <= n,
                n == pairs.len(),
                pairs == self.names.pairs(),
                names.len() == i,
                forall|j: int| 0 <= j < i ==> (#[trigger] names[j])@ == pairs[j].0,
            decreases n - i,
        {
            names.push(self.names.key_at(i).clone());
            i += 1;
        }
        proof {
            assert forall|name: Seq<char>| names_of(names@).contains(name) <==> self@.contains(
                name,
            ) by {
                if names_of(names@).contains(name) {
                    let j = choose|j: int| 0 <= j < names.len() && (#[trigger] names[j])@ == name;
                    assert(pairs[j].0 == name);
                }
                if self@.contains(name) {
                    assert(has_key(pairs, name));
                    let j = crate::table::index_of(pairs, name);
                    assert(names[j]@ == name);
                }
            }
            assert(names_of(names@) =~= self@);
            assert forall|a: int, b: int| 0 <= a < b < names.len() implies names[a]@
                != names[b]@ by {
                assert(pairs[a].0 != pairs[b].0);
            }
            crate::table::lemma_size(pairs);
        }
        names
    }
}

/// One cycle of the election. `fetched` is what the fetch brought, `None`
/// where it failed. A fetch that succeeds replaces the perks; one that
/// fails leaves them untouched.
pub fn refresh_perks(perks: &mut Perks, fetched: Option<&Election>)
    ensures
        match fetched {
            Some(election) => final(perks)@ == perks_of(*election),
            None => *final(perks) == *old(perks),
        },
{
    let election = match fetched {
        Some(election) => election,
        None => {
            return ;
        },
    };
    let mut names: Table<()> = Table::new();
    let mut i: usize = 0;
    while i < election.mayor_perks.len()
        invariant
            i <= election.mayor_perks.len(),
            names@.dom() =~= names_of(election.mayor_perks@.take(i as int)),
        decreases election.mayor_perks.len() - i,
    {
        let ghost before = names@.dom();
        names.insert(election.mayor_perks[i].clone(), ());
        proof {
            let taken = election.mayor_perks@.take(i as int);
            let next = election.mayor_perks@.take(i + 1);
            let added = election.mayor_perks@[i as int]@;
            assert forall|name: Seq<char>| names_of(next).contains(name) <==> (name == added
                || names_of(taken).contains(name)) by {
                if names_of(next).contains(name) {
                    let j = choose|j: int| 0 <= j < next.len() && (#[trigger] next[j])@ == name;
                    if j < i {
                        assert(taken[j]@ == name);
                    }
                }
                if name == added {
                    assert(next[i as int]@ == name);
                }
                if names_of(taken).contains(name) {
                    let j = choose|j: int| 0 <= j < taken.len() && (#[trigger] taken[j])@ == name;
                    assert(next[j]@ == name);
                }
            }
            assert(names@.dom() =~= before.insert(added));
        }
        i += 1;
    }
    assert(election.mayor_perks@.take(i as int) =~= election.mayor_perks@);
    match &election.minister_perk {
        Some(perk) => {
            let ghost before = names@.dom();
            names.insert(perk.clone(), ());
            assert(names@.dom() =~= before.insert(perk@));
        },
        None => {},
    }
    perks.names = names;
}

} // verus!
