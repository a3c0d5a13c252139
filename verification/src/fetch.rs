//! Fetching the auction listings page by page.
//!
//! The listings come in pages, and every page reports how many pages there
//! are. The caller performs the requests; `fetch_auctions_list` decides after
//! each answer what to do next. The count that decides is always the one of
//! the latest answer. A failure ends the fetch and discards what was
//! gathered: listings from half the pages would misstate the lowest prices.

use crate::pricing::Listing;
use vstd::prelude::*;

verus! {

/// How far a fetch has come.
#[derive(Debug)]
pub struct PageProgress {
    /// The index of the page that was requested last.
    pub page: i64,
    /// The listings of the pages answered so far.
    pub gathered: Vec<Listing>,
}

/// What happened since the last decision.
#[derive(Debug)]
pub enum PageEvent {
    /// A new fetch begins.
    Start,
    /// The requested page arrived.
    Page { listings: Vec<Listing>, total_pages: i64 },
    /// The request failed, or its answer could not be read.
    Failure,
}

/// What the caller is to do next.
#[derive(Debug)]
pub enum PageAction {
    /// Request the page with this index.
    Request { page: i64 },
    /// The fetch is complete: these are all the listings.
    Deliver { listings: Vec<Listing> },
    /// The fetch is given up, and nothing of it is to be used.
    Abandon,
}

/// The model of an event.
pub enum Event {
    Start,
    Page { listings: Seq<Listing>, total_pages: int },
    Failure,
}

/// The model of an action.
pub enum Action {
    Request { page: int },
    Deliver { listings: Seq<Listing> },
    Abandon,
}

/// The model of a fetch, and of the action that led to it.
pub struct Fetch {
    pub page: int,
    pub gathered: Seq<Listing>,
    pub action: Action,
}

impl View for PageProgress {
    type V = (int, Seq<Listing>);

    open spec fn view(&self) -> (int, Seq<Listing>) {
        (self.page as int, self.gathered@)
    }
}

impl View for PageEvent {
    type V = Event;

    open spec fn view(&self) -> Event {
        match self {
            PageEvent::Start => Event::Start,
            PageEvent::Page { listings, total_pages } => Event::Page {
                listings: listings@,
                total_pages: *total_pages as int,
            },
            PageEvent::Failure => Event::Failure,
        }
    }
}

impl View for PageAction {
    type V = Action;

    open spec fn view(&self) -> Action {
        match self {
            PageAction::Request { page } => Action::Request { page: *page as int },
            PageAction::Deliver { listings } => Action::Deliver { listings: listings@ },
            PageAction::Abandon => Action::Abandon,
        }
    }
}

/// One decision. A start asks for page 0. A page is added to what was
/// gathered; the next page is asked for where its index is below the count
/// of pages that this answer reports, and otherwise everything gathered is
/// delivered. A failure gives the fetch up and discards what was gathered.
pub open spec fn step(page: int, gathered: Seq<Listing>, event: Event) -> Fetch {
    match event {
        Event::Start => Fetch { page: 0, gathered: Seq::empty(), action: Action::Request { page: 0 } },
        Event::Page { listings, total_pages } => if page + 1 < total_pages {
            Fetch {
                page: page + 1,
                gathered: gathered + listings,
                action: Action::Request { page: page + 1 },
            }
        } else {
            Fetch {
                page,
                gathered: Seq::empty(),
                action: Action::Deliver { listings: gathered + listings },
            }
        },
        Event::Failure => Fetch { page, gathered: Seq::empty(), action: Action::Abandon },
    }
}

impl PageProgress {
    /// The progress of a fetch that has not begun.
    pub fn new() -> (progress: Self)
        ensures
            progress@ == (0int, Seq::<Listing>::empty()),
    {
        PageProgress { page: 0, gathered: Vec::new() }
    }
}

/// Decides what to do after `event`, and keeps the progress up to date.
pub fn fetch_auctions_list(progress: &mut PageProgress, event: PageEvent) -> (action: PageAction)
    ensures
        final(progress)@ == (
            step(old(progress)@.0, old(progress)@.1, event@).page,
            step(old(progress)@.0, old(progress)@.1, event@).gathered,
        ),
        action@ == step(old(progress)@.0, old(progress)@.1, event@).action,
{
    match event {
        PageEvent::Start => {
            progress.page = 0;
            progress.gathered = Vec::new();
            PageAction::Request { page: 0 }
        },
        PageEvent::Page { listings, total_pages } => {
            let mut listings = listings;
            let mut gathered: Vec<Listing> = Vec::new();
            core::mem::swap(&mut progress.gathered, &mut gathered);
            gathered.append(&mut listings);
            if total_pages > i64::MIN && progress.page < total_pages - 1 {
                progress.page = progress.page + 1;
                progress.gathered = gathered;
                PageAction::Request { page: progress.page }
            } else {
                PageAction::Deliver { listings: gathered }
            }
        },
        PageEvent::Failure => {
            progress.gathered = Vec::new();
            PageAction::Abandon
        },
    }
}

/// The fetch after a start and the answers `answers`, in turn, each a page
/// of listings and the count of pages that it reports. Answers that arrive
/// after the fetch has ended change nothing.
pub open spec fn run(answers: Seq<(Seq<Listing>, int)>) -> Fetch
    decreases answers.len(),
{
    if answers.len() == 0 {
        step(0, Seq::empty(), Event::Start)
    } else {
        let before = run(answers.drop_last());
        if before.action is Request {
            step(
                before.page,
                before.gathered,
                Event::Page { listings: answers.last().0, total_pages: answers.last().1 },
            )
        } else {
            before
        }
    }
}

/// The listings of all answers, in their order.
pub open spec fn all_listings(answers: Seq<(Seq<Listing>, int)>) -> Seq<Listing>
    decreases answers.len(),
{
    if answers.len() == 0 {
        Seq::empty()
    } else {
        all_listings(answers.drop_last()) + answers.last().0
    }
}

/// Whether every answer but the last reports more pages than were answered
/// up to it.
pub open spec fn asked_for_more(answers: Seq<(Seq<Listing>, int)>) -> bool {
    forall|k: int| 0 <= k < answers.len() - 1 ==> k + 1 < (#[trigger] answers[k]).1
}

proof fn lemma_run_in_progress(answers: Seq<(Seq<Listing>, int)>)
    requires
        forall|k: int| 0 <= k < answers.len() ==> k + 1 < (#[trigger] answers[k]).1,
    ensures
        run(answers).page == answers.len(),
        run(answers).gathered == all_listings(answers),
        run(answers).action == (Action::Request { page: answers.len() as int }),
    decreases answers.len(),
{
    if answers.len() > 0 {
        let rest = answers.drop_last();
        assert forall|k: int| 0 <= k < rest.len() implies k + 1 < (#[trigger] rest[k]).1 by {
            assert(rest[k] == answers[k]);
        }
        lemma_run_in_progress(rest);
        assert(answers.last() == answers[answers.len() - 1]);
    }
}

/// A fetch ends exactly at the count of pages that the latest answer
/// reports, whatever earlier answers reported: after `n` answers of which
/// every earlier one asked for more, page `n` is requested where the last
/// answer reports more than `n` pages, and otherwise the listings of all
/// `n` pages are delivered.
pub proof fn law_latest_count_ends_the_fetch(answers: Seq<(Seq<Listing>, int)>)
    requires
        answers.len() > 0,
        asked_for_more(answers),
    ensures
        answers.len() < answers.last().1 ==> run(answers).action == (Action::Request {
            page: answers.len() as int,
        }),
        answers.len() >= answers.last().1 ==> run(answers).action == (Action::Deliver {
            listings: all_listings(answers),
        }),
{
    let rest = answers.drop_last();
    assert forall|k: int| 0 <= k < rest.len() implies k + 1 < (#[trigger] rest[k]).1 by {
        assert(rest[k] == answers[k]);
    }
    lemma_run_in_progress(rest);
}

/// A failure discards everything: whatever was gathered, the fetch is given
/// up and nothing is left of it.
pub proof fn law_failure_discards(page: int, gathered: Seq<Listing>)
    ensures
        step(page, gathered, Event::Failure).action == Action::Abandon,
        step(page, gathered, Event::Failure).gathered == Seq::<Listing>::empty(),
{
}

} // verus!
