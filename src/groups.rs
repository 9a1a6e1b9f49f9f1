//! Forward pagination over the user's groups, with a cap on how many are
//! gathered.
//!
//! The caller asks [`GroupListing::next_page`] which page to fetch, fetches
//! [`GROUP_PAGE_SIZE`] groups from it, and hands them to
//! [`GroupListing::accept_page`]. Gathering stops at the first empty page, or
//! as soon as more than [`GROUP_CAP`] groups have been gathered.
use vstd::prelude::*;

use crate::model::Group;

verus! {

/// The number of groups asked for in one page.
pub const GROUP_PAGE_SIZE: u64 = 10;

/// Gathering stops once more groups than this have been gathered.
pub const GROUP_CAP: usize = 100;

/// The state of a listing, as the contracts see it.
pub struct ListingModel {
    pub groups: Seq<Group>,
    /// The number of the next page to fetch, counting from one.
    pub next_page: nat,
    pub finished: bool,
}

/// Gathers the user's groups page by page.
#[derive(Debug)]
pub struct GroupListing {
    groups: Vec<Group>,
    next_page: u64,
    finished: bool,
}

/// The state in which a listing starts.
pub open spec fn listing_start() -> ListingModel {
    ListingModel { groups: Seq::empty(), next_page: 1, finished: false }
}

/// The state after a page has been received: an empty page ends the
/// listing; otherwise its groups are added, the page number advances, and
/// the listing ends once more than [`GROUP_CAP`] groups are held.
pub open spec fn after_groups(s: ListingModel, page: Seq<Group>) -> ListingModel {
    if s.finished {
        s
    } else if page.len() == 0 {
        ListingModel { finished: true, ..s }
    } else {
        ListingModel {
            groups: s.groups + page,
            next_page: s.next_page + 1,
            finished: s.groups.len() + page.len() > GROUP_CAP,
        }
    }
}

/// The state after the pages have been received in turn.
pub open spec fn gather(s: ListingModel, pages: Seq<Seq<Group>>) -> ListingModel
    decreases pages.len(),
{
    if pages.len() == 0 {
        s
    } else {
        gather(after_groups(s, pages[0]), pages.drop_first())
    }
}

impl View for GroupListing {
    type V = ListingModel;

    closed spec fn view(&self) -> ListingModel {
        ListingModel {
            groups: self.groups@,
            next_page: self.next_page as nat,
            finished: self.finished,
        }
    }
}

impl GroupListing {
    /// While a listing goes on, it holds at most [`GROUP_CAP`] groups and
    /// has received at most one page per group.
    pub closed spec fn wf(&self) -> bool {
        &&& 1 <= self.next_page
        &&& !self.finished ==> self.groups@.len() <= GROUP_CAP
        &&& !self.finished ==> self.next_page <= self.groups@.len() + 1
    }

    /// A listing that starts from the first page.
    pub fn new() -> (r: GroupListing)
        ensures
            r.wf(),
            r@ == listing_start(),
    {
        GroupListing { groups: Vec::new(), next_page: 1, finished: false }
    }

    /// The page to fetch next, or `None` once the listing is over.
    pub fn next_page(&self) -> (r: Option<u64>)
        ensures
            self@.finished ==> r is None,
            !self@.finished ==> r == Some(self@.next_page as u64),
    {
        if self.finished {
            None
        } else {
            Some(self.next_page)
        }
    }

    /// Whether the listing is over.
    pub fn is_finished(&self) -> (r: bool)
        ensures
            r == self@.finished,
    {
        self.finished
    }

    /// Receives the groups of the page last asked for.
    pub fn accept_page(&mut self, page: Vec<Group>)
        requires
            old(self).wf(),
        ensures
            final(self).wf(),
            final(self)@ == after_groups(old(self)@, page@),
    {
        if self.finished {
            return;
        }
        if page.len() == 0 {
            self.finished = true;
            return;
        }
        let mut page = page;
        self.groups.append(&mut page);
        self.next_page = self.next_page + 1;
        self.finished = self.groups.len() > GROUP_CAP;
    }

    /// The groups gathered.
    pub fn into_groups(self) -> (r: Vec<Group>)
        ensures
            r@ == self@.groups,
    {
        self.groups
    }
}

proof fn lemma_gather_finished(s: ListingModel, pages: Seq<Seq<Group>>)
    requires
        s.finished,
    ensures
        gather(s, pages) == s,
    decreases pages.len(),
{
    if pages.len() > 0 {
        lemma_gather_finished(after_groups(s, pages[0]), pages.drop_first());
    }
}

proof fn lemma_gather_full_pages(s: ListingModel, pages: Seq<Seq<Group>>, k: nat)
    requires
        !s.finished,
        s.groups.len() == 10 * k,
        k <= 10,
        forall|i: int| 0 <= i < pages.len() ==> #[trigger] pages[i].len() == GROUP_PAGE_SIZE,
    ensures
        pages.len() + k <= 10 ==> !gather(s, pages).finished && gather(s, pages).groups.len() == 10 * (
        k + pages.len()),
        pages.len() + k > 10 ==> gather(s, pages).finished && gather(s, pages).groups.len() == 110,
    decreases pages.len(),
{
    if pages.len() > 0 {
        let next = after_groups(s, pages[0]);
        let rest = pages.drop_first();
        assert forall|i: int| 0 <= i < rest.len() implies #[trigger] rest[i].len()
            == GROUP_PAGE_SIZE by {
            assert(rest[i] == pages[i + 1]);
        }
        if k == 10 {
            lemma_gather_finished(next, rest);
        } else {
            lemma_gather_full_pages(next, rest, k + 1);
        }
    }
}

/// Given pages of [`GROUP_PAGE_SIZE`] groups each, the listing goes on while
/// it holds at most [`GROUP_CAP`] groups and stops as soon as it holds more,
/// after the eleventh page, however many pages the source still has.
pub proof fn lemma_group_cap(pages: Seq<Seq<Group>>)
    requires
        forall|i: int| 0 <= i < pages.len() ==> #[trigger] pages[i].len() == GROUP_PAGE_SIZE,
    ensures
        pages.len() <= 10 ==> !gather(listing_start(), pages).finished && gather(
            listing_start(),
            pages,
        ).groups.len() == 10 * pages.len(),
        pages.len() >= 11 ==> gather(listing_start(), pages).finished && gather(
            listing_start(),
            pages,
        ).groups.len() == 110,
{
    lemma_gather_full_pages(listing_start(), pages, 0);
}

} // verus!
