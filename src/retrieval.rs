//! Backward pagination over a group's message history, restricted to a
//! closed date window.
//!
//! A [`MessageRetrieval`] holds the decisions; the caller performs the
//! requests. It asks [`MessageRetrieval::next_step`] what to do, waits the
//! given delay and fetches the page older than the given cursor, then hands
//! the page to [`MessageRetrieval::accept_page`], which returns the messages
//! to emit. A failed request is reported with [`MessageRetrieval::abort`].
//! Once the retrieval is finished, no further fetch is ever asked for.
use vstd::prelude::*;

use crate::model::{last_id, Message};
use crate::window::{classify, position_of, DateWindow, Timestamp, ValidationError, WindowPosition};

verus! {

/// The least delay, in milliseconds, between the starts of two fetches of
/// one retrieval.
pub const RATE_LIMIT_MS: u64 = 1000;

/// The state of a retrieval, as the contracts see it.
pub struct RetrievalModel {
    pub window: DateWindow,
    /// Identifier of the message that the next page must be older than;
    /// `None` asks for the newest messages.
    pub cursor: Option<Seq<char>>,
    /// How many fetches have been asked for.
    pub fetches: nat,
    pub finished: bool,
}

/// What the caller does next.
#[derive(Debug)]
pub enum RetrievalStep {
    /// Wait `delay_ms` milliseconds, then fetch the page of messages older
    /// than `before_id` (the newest page when it is `None`).
    Fetch { before_id: Option<String>, delay_ms: u64 },
    /// The retrieval is over: fetch nothing more.
    Finished,
}

/// The retrieval engine for one group and one window.
#[derive(Debug)]
pub struct MessageRetrieval {
    window: DateWindow,
    cursor: Option<String>,
    fetches: u64,
    finished: bool,
}

/// The messages that one page contributes: taken in order, those inside the
/// window are kept, those newer are skipped, and the first older one ends
/// the page and everything after it.
pub open spec fn emitted(page: Seq<Message>, w: DateWindow) -> Seq<Message>
    decreases page.len(),
{
    if page.len() == 0 {
        Seq::empty()
    } else if page[0].created_at < w.oldest {
        Seq::empty()
    } else if page[0].created_at > w.newest {
        emitted(page.drop_first(), w)
    } else {
        seq![page[0]] + emitted(page.drop_first(), w)
    }
}

/// Some message of the page is older than the window.
pub open spec fn leaves_window(page: Seq<Message>, w: DateWindow) -> bool
    decreases page.len(),
{
    page.len() > 0 && (page[0].created_at < w.oldest || leaves_window(page.drop_first(), w))
}

/// The state in which a retrieval of `w` starts.
pub open spec fn start(w: DateWindow) -> RetrievalModel {
    RetrievalModel { window: w, cursor: None, fetches: 0, finished: false }
}

/// The delay before the next fetch: none before the first one.
pub open spec fn delay_before(s: RetrievalModel) -> u64 {
    if s.fetches == 0 {
        0
    } else {
        RATE_LIMIT_MS
    }
}

/// The state after a fetch has been asked for.
pub open spec fn after_fetch(s: RetrievalModel) -> RetrievalModel {
    if s.finished {
        s
    } else {
        RetrievalModel { fetches: s.fetches + 1, ..s }
    }
}

/// The state after a page has been received: an empty page ends the
/// retrieval; otherwise the cursor moves to the page's last message, whatever
/// was kept of the page, and a message older than the window ends it.
pub open spec fn after_page(s: RetrievalModel, page: Seq<Message>) -> RetrievalModel {
    if s.finished {
        s
    } else if page.len() == 0 {
        RetrievalModel { finished: true, ..s }
    } else {
        RetrievalModel {
            cursor: last_id(page),
            finished: leaves_window(page, s.window),
            ..s
        }
    }
}

/// What a page emits in state `s`.
pub open spec fn emitted_in(s: RetrievalModel, page: Seq<Message>) -> Seq<Message> {
    if s.finished {
        Seq::empty()
    } else {
        emitted(page, s.window)
    }
}

/// One round: a fetch is asked for, and the page it brought is received.
pub open spec fn round(s: RetrievalModel, page: Seq<Message>) -> RetrievalModel {
    after_page(after_fetch(s), page)
}

/// The state after the caller has gone through `pages`, one round each.
pub open spec fn run(s: RetrievalModel, pages: Seq<Seq<Message>>) -> RetrievalModel
    decreases pages.len(),
{
    if pages.len() == 0 {
        s
    } else {
        run(round(s, pages[0]), pages.drop_first())
    }
}

/// `r` asks for the fetch that is due in state `s`: the page older than the
/// cursor, after the delay that the rate limit asks for.
pub open spec fn fetch_of(r: RetrievalStep, s: RetrievalModel) -> bool {
    match r {
        RetrievalStep::Fetch { before_id, delay_ms } => {
            &&& delay_ms == delay_before(s)
            &&& match before_id {
                Some(id) => s.cursor == Some(id@),
                None => s.cursor is None,
            }
        },
        RetrievalStep::Finished => false,
    }
}

/// What the caller is handed over `pages`, one round each, page after page.
pub open spec fn emitted_run(s: RetrievalModel, pages: Seq<Seq<Message>>) -> Seq<Message>
    decreases pages.len(),
{
    if pages.len() == 0 {
        Seq::empty()
    } else {
        emitted_in(after_fetch(s), pages[0]) + emitted_run(round(s, pages[0]), pages.drop_first())
    }
}

impl View for MessageRetrieval {
    type V = RetrievalModel;

    closed spec fn view(&self) -> RetrievalModel {
        RetrievalModel {
            window: self.window,
            cursor: match self.cursor {
                Some(c) => Some(c@),
                None => None,
            },
            fetches: self.fetches as nat,
            finished: self.finished,
        }
    }
}

impl MessageRetrieval {
    /// Starts a retrieval of the messages created in `[oldest, newest]`.
    /// Fails, before any fetch, unless `newest > oldest`.
    pub fn new(newest: Timestamp, oldest: Timestamp) -> (r: Result<MessageRetrieval, ValidationError>)
        ensures
            newest <= oldest <==> r is Err,
            r matches Err(e) ==> e == (ValidationError::EmptyWindow { newest, oldest }),
            r matches Ok(m) ==> m@ == start(DateWindow { oldest, newest }),
    {
        match DateWindow::new(newest, oldest) {
            Ok(window) => Ok(MessageRetrieval { window, cursor: None, fetches: 0, finished: false }),
            Err(e) => Err(e),
        }
    }

    /// The window of this retrieval.
    pub fn window(&self) -> (r: DateWindow)
        ensures
            r == self@.window,
    {
        self.window
    }

    /// How many fetches have been asked for so far.
    pub fn fetch_count(&self) -> (r: u64)
        ensures
            r == self@.fetches,
    {
        self.fetches
    }

    /// Whether the retrieval is over.
    pub fn is_finished(&self) -> (r: bool)
        ensures
            r == self@.finished,
    {
        self.finished
    }

    /// What to do next: once finished, nothing; else fetch the page older
    /// than the cursor, after no delay for the first fetch and
    /// [`RATE_LIMIT_MS`] for every later one.
    pub fn next_step(&mut self) -> (r: RetrievalStep)
        requires
            old(self)@.fetches < u64::MAX,
        ensures
            final(self)@ == after_fetch(old(self)@),
            old(self)@.finished ==> r is Finished,
            !old(self)@.finished ==> fetch_of(r, old(self)@),
    {
        if self.finished {
            return RetrievalStep::Finished;
        }
        let delay_ms: u64 = if self.fetches == 0 {
            0
        } else {
            RATE_LIMIT_MS
        };
        self.fetches = self.fetches + 1;
        let before_id = match &self.cursor {
            Some(c) => Some(c.clone()),
            None => None,
        };
        RetrievalStep::Fetch { before_id, delay_ms }
    }

    /// Receives the page that the last fetch brought, newest first, and
    /// returns the messages to emit, in the page's order.
    pub fn accept_page(&mut self, page: Vec<Message>) -> (r: Vec<Message>)
        ensures
            final(self)@ == after_page(old(self)@, page@),
            r@ == emitted_in(old(self)@, page@),
    {
        if self.finished {
            return Vec::new();
        }
        let n = page.len();
        if n == 0 {
            self.finished = true;
            return Vec::new();
        }
        self.cursor = Some(page[n - 1].id.clone());

        let window = self.window;
        let ghost whole = page@;
        let mut rest = page;
        let mut out: Vec<Message> = Vec::new();
        let mut left_window = false;
        while rest.len() > 0
            invariant_except_break
                !left_window,
                emitted(whole, window) == out@ + emitted(rest@, window),
                leaves_window(whole, window) == leaves_window(rest@, window),
            ensures
                emitted(whole, window) == out@,
                leaves_window(whole, window) == left_window,
            decreases rest.len(),
        {
            let ghost before = rest@;
            let m = rest.remove(0);
            assert(before[0] == m && before.drop_first() == rest@);
            match classify(m.created_at, &window) {
                WindowPosition::Before => {
                    left_window = true;
                    break;
                },
                WindowPosition::After => {},
                WindowPosition::Inside => {
                    out.push(m);
                },
            }
        }
        self.finished = left_window;
        out
    }

    /// Ends the retrieval after a failed fetch: nothing more is fetched.
    pub fn abort(&mut self)
        ensures
            final(self)@ == (RetrievalModel { finished: true, ..old(self)@ }),
    {
        self.finished = true;
    }
}

/// The page is ordered newest first.
pub open spec fn newest_first(page: Seq<Message>) -> bool {
    forall|i: int, j: int|
        0 <= i < j < page.len() ==> #[trigger] page[j].created_at <= #[trigger] page[i].created_at
}

/// The messages of `page` that lie inside `w`, in page order.
pub open spec fn inside(page: Seq<Message>, w: DateWindow) -> Seq<Message> {
    page.filter(|m: Message| position_of(m.created_at, w) == WindowPosition::Inside)
}

proof fn lemma_none_inside(page: Seq<Message>, w: DateWindow)
    requires
        forall|i: int| 0 <= i < page.len() ==> #[trigger] page[i].created_at < w.oldest,
    ensures
        inside(page, w) == Seq::<Message>::empty(),
{
    let pred = |m: Message| position_of(m.created_at, w) == WindowPosition::Inside;
    let f = page.filter(pred);
    if f.len() > 0 {
        page.lemma_filter_contains_rev(pred, f[0]);
        page.lemma_filter_pred(pred, 0);
        assert(f.contains(f[0]));
    }
    assert(f =~= Seq::<Message>::empty());
}

/// On a page ordered newest first, the messages emitted are exactly those
/// inside the window, in page order; the scan stops at the first message
/// older than the window.
pub proof fn lemma_sorted_page_emits_window(page: Seq<Message>, w: DateWindow)
    requires
        newest_first(page),
    ensures
        emitted(page, w) == inside(page, w),
    decreases page.len(),
{
    let pred = |m: Message| position_of(m.created_at, w) == WindowPosition::Inside;
    if page.len() == 0 {
        assert(page.filter(pred) =~= Seq::<Message>::empty());
    } else if page[0].created_at < w.oldest {
        assert forall|i: int| 0 <= i < page.len() implies #[trigger] page[i].created_at < w.oldest by {
            if i > 0 {
                assert(page[i].created_at <= page[0].created_at);
            }
        }
        lemma_none_inside(page, w);
    } else {
        let rest = page.drop_first();
        assert forall|i: int, j: int| 0 <= i < j < rest.len() implies #[trigger] rest[j].created_at
            <= #[trigger] rest[i].created_at by {
            assert(rest[j] == page[j + 1] && rest[i] == page[i + 1]);
        }
        lemma_sorted_page_emits_window(rest, w);
        assert(page == seq![page[0]] + rest);
        Seq::filter_distributes_over_add(seq![page[0]], rest, pred);
        reveal_with_fuel(Seq::filter, 2);
        if pred(page[0]) {
            assert(seq![page[0]].filter(pred) =~= seq![page[0]]);
        } else {
            assert(seq![page[0]].filter(pred) =~= Seq::<Message>::empty());
        }
    }
}

/// After a non-empty page, the cursor is the identifier of that page's last
/// message, however many of its messages were kept; the next fetch asks for
/// the page older than it.
pub proof fn lemma_cursor_follows_last_message(s: RetrievalModel, page: Seq<Message>)
    requires
        !s.finished,
        page.len() > 0,
    ensures
        after_page(s, page).cursor == Some(page.last().id@),
        !leaves_window(page, s.window) ==> !after_page(s, page).finished,
        forall|r: RetrievalStep|
            #[trigger] fetch_of(r, after_page(s, page)) ==> (r matches RetrievalStep::Fetch {
                before_id: Some(id),
                ..
            } && id@ == page.last().id@),
{
}

proof fn lemma_run_finished(s: RetrievalModel, pages: Seq<Seq<Message>>)
    requires
        s.finished,
    ensures
        run(s, pages) == s,
    decreases pages.len(),
{
    if pages.len() > 0 {
        lemma_run_finished(round(s, pages[0]), pages.drop_first());
    }
}

proof fn lemma_run_until_empty(s: RetrievalModel, pages: Seq<Seq<Message>>, k: int)
    requires
        !s.finished,
        0 <= k < pages.len(),
        pages[k].len() == 0,
        forall|i: int| 0 <= i < k ==> #[trigger] pages[i].len() > 0 && !leaves_window(pages[i], s.window),
    ensures
        run(s, pages).finished,
        run(s, pages).fetches == s.fetches + k + 1,
    decreases k,
{
    let next = round(s, pages[0]);
    if k == 0 {
        lemma_run_finished(next, pages.drop_first());
    } else {
        let rest = pages.drop_first();
        assert forall|i: int| 0 <= i < k - 1 implies #[trigger] rest[i].len() > 0 && !leaves_window(
            rest[i],
            next.window,
        ) by {
            assert(rest[i] == pages[i + 1]);
        }
        assert(pages[0].len() > 0 && !leaves_window(pages[0], s.window));
        lemma_run_until_empty(next, rest, k - 1);
    }
}

/// If the `k`-th page fetched (from zero) is empty and no page before it
/// ended the retrieval, the retrieval ends there after exactly `k + 1`
/// fetches, whatever pages the source would have had after it.
pub proof fn lemma_empty_page_ends_retrieval(w: DateWindow, pages: Seq<Seq<Message>>, k: int)
    requires
        0 <= k < pages.len(),
        pages[k].len() == 0,
        forall|i: int| 0 <= i < k ==> #[trigger] pages[i].len() > 0 && !leaves_window(pages[i], w),
    ensures
        run(start(w), pages).finished,
        run(start(w), pages).fetches == k + 1,
        forall|more: Seq<Seq<Message>>| #[trigger] run(start(w), pages + more) == run(start(w), pages),
{
    lemma_run_until_empty(start(w), pages, k);
    assert forall|more: Seq<Seq<Message>>| #[trigger] run(start(w), pages + more) == run(start(w), pages) by {
        lemma_run_append(start(w), pages, more);
        lemma_run_finished(run(start(w), pages), more);
    }
}

proof fn lemma_run_append(s: RetrievalModel, a: Seq<Seq<Message>>, b: Seq<Seq<Message>>)
    ensures
        run(s, a + b) == run(run(s, a), b),
    decreases a.len(),
{
    if a.len() > 0 {
        assert((a + b).drop_first() == a.drop_first() + b);
        assert((a + b)[0] == a[0]);
        lemma_run_append(round(s, a[0]), a.drop_first(), b);
    } else {
        assert(a + b == b);
    }
}

proof fn lemma_run_keeps_fetches(s: RetrievalModel, pages: Seq<Seq<Message>>)
    ensures
        run(s, pages).fetches >= s.fetches,
        pages.len() > 0 && !s.finished ==> run(s, pages).fetches >= s.fetches + 1,
    decreases pages.len(),
{
    if pages.len() > 0 {
        lemma_run_keeps_fetches(round(s, pages[0]), pages.drop_first());
    }
}

/// The first fetch of a retrieval is not delayed; once a page has been
/// fetched, every later fetch waits [`RATE_LIMIT_MS`] first.
pub proof fn lemma_rate_limit(w: DateWindow, pages: Seq<Seq<Message>>)
    ensures
        delay_before(start(w)) == 0,
        pages.len() > 0 ==> delay_before(run(start(w), pages)) == RATE_LIMIT_MS,
{
    lemma_run_keeps_fetches(start(w), pages);
}

proof fn lemma_leaves_window_witness(page: Seq<Message>, w: DateWindow) -> (i: int)
    requires
        leaves_window(page, w),
    ensures
        0 <= i < page.len(),
        page[i].created_at < w.oldest,
    decreases page.len(),
{
    if page[0].created_at < w.oldest {
        0
    } else {
        let j = lemma_leaves_window_witness(page.drop_first(), w);
        j + 1
    }
}

proof fn lemma_newest_first_split(a: Seq<Message>, b: Seq<Message>)
    requires
        newest_first(a + b),
    ensures
        newest_first(a),
        newest_first(b),
        forall|i: int, j: int|
            0 <= i < a.len() && 0 <= j < b.len() ==> #[trigger] b[j].created_at
                <= #[trigger] a[i].created_at,
{
    let ab = a + b;
    assert forall|i: int, j: int| 0 <= i < j < a.len() implies #[trigger] a[j].created_at
        <= #[trigger] a[i].created_at by {
        assert(ab[i] == a[i] && ab[j] == a[j]);
    }
    assert forall|i: int, j: int| 0 <= i < j < b.len() implies #[trigger] b[j].created_at
        <= #[trigger] b[i].created_at by {
        assert(ab[a.len() + i] == b[i] && ab[a.len() + j] == b[j]);
    }
    assert forall|i: int, j: int| 0 <= i < a.len() && 0 <= j < b.len() implies #[trigger] b[j].created_at
        <= #[trigger] a[i].created_at by {
        assert(ab[i] == a[i] && ab[a.len() + j] == b[j]);
    }
}

proof fn lemma_emitted_run_finished(s: RetrievalModel, pages: Seq<Seq<Message>>)
    requires
        s.finished,
    ensures
        emitted_run(s, pages) == Seq::<Message>::empty(),
    decreases pages.len(),
{
    if pages.len() > 0 {
        lemma_emitted_run_finished(round(s, pages[0]), pages.drop_first());
        assert(emitted_run(s, pages) =~= Seq::<Message>::empty());
    }
}

proof fn lemma_run_emits(s: RetrievalModel, pages: Seq<Seq<Message>>)
    requires
        !s.finished,
        newest_first(pages.flatten()),
        forall|i: int| 0 <= i < pages.len() ==> #[trigger] pages[i].len() > 0,
    ensures
        emitted_run(s, pages) == inside(pages.flatten(), s.window),
    decreases pages.len(),
{
    let w = s.window;
    let pred = |m: Message| position_of(m.created_at, w) == WindowPosition::Inside;
    if pages.len() == 0 {
        assert(pages.flatten().filter(pred) =~= Seq::<Message>::empty());
    } else {
        let a = pages[0];
        let rest = pages.drop_first();
        let b = rest.flatten();
        assert(pages.flatten() == a + b);
        lemma_newest_first_split(a, b);
        lemma_sorted_page_emits_window(a, w);
        Seq::filter_distributes_over_add(a, b, pred);
        let next = round(s, a);
        if leaves_window(a, w) {
            lemma_emitted_run_finished(next, rest);
            let i = lemma_leaves_window_witness(a, w);
            assert forall|j: int| 0 <= j < b.len() implies #[trigger] b[j].created_at < w.oldest by {
                assert(b[j].created_at <= a[i].created_at);
            }
            lemma_none_inside(b, w);
            assert(emitted_run(s, pages) =~= inside(a, w));
            assert(inside(pages.flatten(), w) =~= inside(a, w));
        } else {
            assert forall|i: int| 0 <= i < rest.len() implies #[trigger] rest[i].len() > 0 by {
                assert(rest[i] == pages[i + 1]);
            }
            lemma_run_emits(next, rest);
        }
    }
}

/// Over a history ordered newest first and handed over in non-empty pages,
/// a retrieval emits, across all its pages, exactly the messages of the
/// history that lie inside its window, in history order.
pub proof fn lemma_run_emits_window(w: DateWindow, pages: Seq<Seq<Message>>)
    requires
        newest_first(pages.flatten()),
        forall|i: int| 0 <= i < pages.len() ==> #[trigger] pages[i].len() > 0,
    ensures
        emitted_run(start(w), pages) == inside(pages.flatten(), w),
{
    lemma_run_emits(start(w), pages);
}

} // verus!
