//! The decisions of the crawl loop: when to refill the queue of urls, which
//! url to crawl next, and when to stop.

use vstd::prelude::*;
use crate::queue::{law_refill, queue_ok, refilled, update_urls_queue, QueueState, UrlQueue};
use crate::text::strings_view;

verus! {

/// The fewest queued urls before the queue is refilled.
pub const MIN_URLS: usize = 32;

/// The capacity of the queue of urls.
pub const MAX_URLS: usize = 65536;

/// Why the crawl loop ends.
#[derive(Clone, Copy, Debug, PartialEq, Eq)]
pub enum FinishReason {
    /// The queue is empty after a refill: no url is left to crawl.
    NoMoreUrls,
    /// As many urls were crawled as the loop was allowed.
    LoopLimit,
}

/// What the crawl loop is to do next.
#[derive(Debug)]
pub enum CrawlAction {
    /// Read the links table, then hand the links to `Crawler::refill`.
    Refill,
    /// Crawl this url, then ask `Crawler::next_action`.
    Crawl(String),
    /// Stop.
    Finish(FinishReason),
}

/// A `CrawlAction` with its url as characters.
pub enum Step {
    Refill,
    Crawl(Seq<char>),
    Finish(FinishReason),
}

/// The `Step` of an action.
pub open spec fn step_of(a: CrawlAction) -> Step {
    match a {
        CrawlAction::Refill => Step::Refill,
        CrawlAction::Crawl(u) => Step::Crawl(u@),
        CrawlAction::Finish(r) => Step::Finish(r),
    }
}

/// The state of the crawl loop.
pub struct Crawler {
    queue: UrlQueue,
    min_urls: usize,
    max_loops: Option<usize>,
    loops: usize,
    handed_out: Ghost<Seq<Seq<char>>>,
    enqueued: Ghost<Seq<Seq<char>>>,
}

/// The contents of a `Crawler`: the queued urls and the queue's capacity, the
/// fewest urls before a refill, the most urls it may crawl, and how many it
/// has handed out while it counts them; and, over the whole run, the urls
/// handed out to be crawled and the urls ever queued, each in order.
pub struct CrawlerState {
    pub urls: Seq<Seq<char>>,
    pub capacity: nat,
    pub min_urls: nat,
    pub max_loops: Option<usize>,
    pub loops: nat,
    pub handed_out: Seq<Seq<char>>,
    pub enqueued: Seq<Seq<char>>,
}

impl View for Crawler {
    type V = CrawlerState;

    closed spec fn view(&self) -> CrawlerState {
        CrawlerState {
            urls: self.queue@.urls,
            capacity: self.queue@.capacity,
            min_urls: self.min_urls as nat,
            max_loops: self.max_loops,
            loops: self.loops as nat,
            handed_out: self.handed_out@,
            enqueued: self.enqueued@,
        }
    }
}

/// The queue of a crawler state.
pub open spec fn queue_of(s: CrawlerState) -> QueueState {
    QueueState { urls: s.urls, capacity: s.capacity }
}

/// What every crawler keeps: a valid queue, never more urls handed out than
/// it may crawl, and the urls handed out followed by those still queued are
/// exactly the urls ever queued, in the order they were queued.
pub open spec fn crawler_ok(s: CrawlerState) -> bool {
    &&& queue_ok(queue_of(s))
    &&& (s.max_loops matches Some(m) ==> s.loops <= m)
    &&& s.handed_out + s.urls == s.enqueued
}

/// The rest of an iteration of the loop, once the queue holds enough urls:
/// stop on an empty queue or once the limit of urls is reached, else hand
/// out the oldest url.
pub open spec fn proceed(s: CrawlerState) -> (CrawlerState, Step) {
    if s.urls.len() == 0 {
        (s, Step::Finish(FinishReason::NoMoreUrls))
    } else {
        match s.max_loops {
            Some(m) => if s.loops >= m {
                (s, Step::Finish(FinishReason::LoopLimit))
            } else {
                (
                    CrawlerState {
                        urls: s.urls.drop_first(),
                        loops: s.loops + 1,
                        handed_out: s.handed_out.push(s.urls[0]),
                        ..s
                    },
                    Step::Crawl(s.urls[0]),
                )
            },
            None => (
                CrawlerState {
                    urls: s.urls.drop_first(),
                    handed_out: s.handed_out.push(s.urls[0]),
                    ..s
                },
                Step::Crawl(s.urls[0]),
            ),
        }
    }
}

/// The start of an iteration: ask for a refill while the queue holds fewer
/// than `min_urls` urls.
pub open spec fn begin(s: CrawlerState) -> (CrawlerState, Step) {
    if s.urls.len() < s.min_urls {
        (s, Step::Refill)
    } else {
        proceed(s)
    }
}

/// The state once `links` (with `crawled`) were offered to the queue: the
/// urls added at the back of the queue are also added to those ever queued.
pub open spec fn with_refill(s: CrawlerState, links: Seq<Seq<char>>, crawled: Seq<bool>) -> CrawlerState {
    let r = refilled(s.urls, links, crawled, (s.capacity - s.urls.len()) as nat);
    CrawlerState { urls: r, enqueued: s.enqueued + r.subrange(s.urls.len() as int, r.len() as int), ..s }
}

impl Crawler {
    /// A crawl loop with an empty queue of capacity `MAX_URLS`, refilled below
    /// `MIN_URLS` urls, that crawls at most `max_loops` urls where it is given.
    pub fn new(max_loops: Option<usize>) -> (c: Crawler)
        ensures
            c@.urls == Seq::<Seq<char>>::empty(),
            c@.capacity == MAX_URLS,
            c@.min_urls == MIN_URLS,
            c@.capacity == 65536,
            c@.min_urls == 32,
            c@.max_loops == max_loops,
            c@.loops == 0,
            c@.handed_out == Seq::<Seq<char>>::empty(),
            c@.enqueued == Seq::<Seq<char>>::empty(),
            crawler_ok(c@),
    {
        let c = Crawler {
            queue: UrlQueue::with_capacity(MAX_URLS),
            min_urls: MIN_URLS,
            max_loops,
            loops: 0,
            handed_out: Ghost(Seq::empty()),
            enqueued: Ghost(Seq::empty()),
        };
        assert(c@.handed_out + c@.urls =~= c@.enqueued);
        c
    }

    /// The queue of urls.
    pub fn queue(&self) -> (q: &UrlQueue)
        ensures
            q@ == queue_of(self@),
    {
        &self.queue
    }

    fn proceed(&mut self) -> (a: CrawlAction)
        requires
            crawler_ok(old(self)@),
        ensures
            (final(self)@, step_of(a)) == proceed(old(self)@),
            crawler_ok(final(self)@),
    {
        if self.queue.is_empty() {
            return CrawlAction::Finish(FinishReason::NoMoreUrls);
        }
        match self.max_loops {
            Some(m) => {
                if self.loops >= m {
                    return CrawlAction::Finish(FinishReason::LoopLimit);
                }
                self.loops = self.loops + 1;
            },
            None => {},
        }
        let ghost before = self@;
        match self.queue.pop_front() {
            Some(url) => {
                proof {
                    self.handed_out = Ghost(self.handed_out@.push(url@));
                    assert(self@.handed_out + self@.urls =~= before.handed_out + before.urls);
                }
                CrawlAction::Crawl(url)
            },
            None => CrawlAction::Finish(FinishReason::NoMoreUrls),
        }
    }

    /// Starts an iteration of the crawl loop.
    pub fn next_action(&mut self) -> (a: CrawlAction)
        requires
            crawler_ok(old(self)@),
        ensures
            (final(self)@, step_of(a)) == begin(old(self)@),
            crawler_ok(final(self)@),
    {
        if self.queue.len() < self.min_urls {
            CrawlAction::Refill
        } else {
            self.proceed()
        }
    }

    /// Offers `links` to the queue (`crawled[i]` tells whether `links[i]` was
    /// crawled already), then goes on with the iteration.
    pub fn refill(&mut self, links: &Vec<String>, crawled: &Vec<bool>) -> (a: CrawlAction)
        requires
            crawler_ok(old(self)@),
            links@.len() == crawled@.len(),
        ensures
            (final(self)@, step_of(a)) == proceed(with_refill(old(self)@, strings_view(links@), crawled@)),
            crawler_ok(final(self)@),
    {
        let ghost before = self@;
        update_urls_queue(&mut self.queue, links, crawled);
        proof {
            law_refill(queue_of(before), strings_view(links@), crawled@);
            let r = self@.urls;
            self.enqueued = Ghost(self.enqueued@ + r.subrange(before.urls.len() as int, r.len() as int));
            assert(r =~= before.urls + r.subrange(before.urls.len() as int, r.len() as int));
            assert(self@.handed_out + self@.urls =~= self@.enqueued);
        }
        self.proceed()
    }
}

/// A crawler with a limit hands out one url per iteration at most, counts
/// each, and once it has handed out as many as the limit it only stops or
/// asks for a refill.
pub proof fn law_loop_limit(s: CrawlerState)
    requires
        crawler_ok(s),
        s.max_loops is Some,
    ensures
        proceed(s).1 is Crawl ==> proceed(s).0.loops == s.loops + 1,
        s.loops == s.max_loops->0 ==> !(proceed(s).1 is Crawl) && !(begin(s).1 is Crawl),
        crawler_ok(proceed(s).0),
{
    if s.urls.len() > 0 {
        assert(s.handed_out.push(s.urls[0]) + s.urls.drop_first() =~= s.handed_out + s.urls);
    }
}

/// The url handed out is the oldest queued one, and it leaves the queue.
pub proof fn law_first_in_first_out(s: CrawlerState)
    requires
        crawler_ok(s),
    ensures
        proceed(s).1 matches Step::Crawl(u) ==> s.urls.len() > 0 && u == s.urls[0]
            && proceed(s).0.urls == s.urls.drop_first(),
        !(proceed(s).1 is Crawl) ==> proceed(s).0 == s,
{
}


/// Over a whole run, urls are handed out to be crawled in the order in which
/// they were queued: those handed out so far are the first urls ever queued,
/// and the queue holds the rest.
pub proof fn law_crawl_order(s: CrawlerState)
    requires
        crawler_ok(s),
    ensures
        s.handed_out.len() <= s.enqueued.len(),
        s.enqueued.subrange(0, s.handed_out.len() as int) == s.handed_out,
        s.enqueued.subrange(s.handed_out.len() as int, s.enqueued.len() as int) == s.urls,
{
    assert(s.enqueued.subrange(0, s.handed_out.len() as int) =~= s.handed_out);
    assert(s.enqueued.subrange(s.handed_out.len() as int, s.enqueued.len() as int) =~= s.urls);
}

/// Where no url was queued twice in a run, no url is handed out twice, and
/// none that was handed out is still queued.
pub proof fn law_no_url_twice(s: CrawlerState)
    requires
        crawler_ok(s),
        s.enqueued.no_duplicates(),
    ensures
        s.handed_out.no_duplicates(),
        forall|i: int, j: int|
            0 <= i < s.handed_out.len() && 0 <= j < s.urls.len() ==> #[trigger] s.handed_out[i]
                != #[trigger] s.urls[j],
{
    let h = s.handed_out;
    assert forall|a: int, b: int| 0 <= a < h.len() && 0 <= b < h.len() && a != b implies h[a] != h[b] by {
        assert(s.enqueued[a] == h[a]);
        assert(s.enqueued[b] == h[b]);
    }
    assert forall|i: int, j: int| 0 <= i < h.len() && 0 <= j < s.urls.len() implies #[trigger] h[i]
        != #[trigger] s.urls[j] by {
        assert(s.enqueued[i] == h[i]);
        assert(s.enqueued[h.len() + j] == s.urls[j]);
    }
}

/// The start and the rest of an iteration queue nothing.
pub proof fn law_steps_queue_nothing(s: CrawlerState)
    ensures
        proceed(s).0.enqueued == s.enqueued,
        begin(s).0.enqueued == s.enqueued,
{
}

/// A refill never queues a url whose crawled flag is set, and it keeps the
/// urls ever queued distinct where the flags mark every url handed out so
/// far (as the pages table does once a url is crawled): so no url is crawled
/// twice in a run, and none that was crawled before it was queued.
pub proof fn law_refill_run(s: CrawlerState, links: Seq<Seq<char>>, crawled: Seq<bool>)
    requires
        crawler_ok(s),
        links.len() == crawled.len(),
    ensures
        ({
            let t = with_refill(s, links, crawled);
            &&& crawler_ok(t)
            &&& forall|k: int|
                s.enqueued.len() <= k < t.enqueued.len() ==> exists|m: int|
                    0 <= m < links.len() && links[m] == #[trigger] t.enqueued[k] && !crawled[m]
            &&& (s.enqueued.no_duplicates() && (forall|m: int|
                0 <= m < links.len() && s.handed_out.contains(#[trigger] links[m]) ==> crawled[m]))
                ==> t.enqueued.no_duplicates()
        }),
{
    let q = queue_of(s);
    law_refill(q, links, crawled);
    let r = refilled(s.urls, links, crawled, (s.capacity - s.urls.len()) as nat);
    let t = with_refill(s, links, crawled);
    let n0 = s.urls.len() as int;
    let tail = r.subrange(n0, r.len() as int);
    assert(r =~= s.urls + tail);
    assert(t.handed_out + t.urls =~= t.enqueued);
    assert forall|k: int| s.enqueued.len() <= k < t.enqueued.len() implies exists|m: int|
        0 <= m < links.len() && links[m] == #[trigger] t.enqueued[k] && !crawled[m] by {
        assert(t.enqueued[k] == r[k - s.enqueued.len() + n0]);
    }
    if s.enqueued.no_duplicates() && (forall|m: int|
        0 <= m < links.len() && s.handed_out.contains(#[trigger] links[m]) ==> crawled[m]) {
        let h = s.handed_out;
        let e = t.enqueued;
        assert(e =~= h + r);
        assert forall|a: int, b: int| 0 <= a < e.len() && 0 <= b < e.len() && a != b implies e[a]
            != e[b] by {
            if a < h.len() && b < h.len() {
                assert(s.enqueued[a] == e[a] && s.enqueued[b] == e[b]);
            } else if a >= h.len() && b >= h.len() {
                assert(e[a] == r[a - h.len()] && e[b] == r[b - h.len()]);
            } else {
                let (x, y) = if a < h.len() {
                    (a, b)
                } else {
                    (b, a)
                };
                let j = y - h.len();
                assert(e[y] == r[j]);
                if j < n0 {
                    assert(s.enqueued[x] == e[x]);
                    assert(s.enqueued[h.len() + j] == r[j]);
                } else {
                    let m = choose|m: int| 0 <= m < links.len() && links[m] == #[trigger] r[j] && !crawled[m];
                    assert(h[x] == e[x]);
                    if e[x] == e[y] {
                        assert(h.contains(links[m]));
                    }
                }
            }
        }
    }
}

} // verus!
