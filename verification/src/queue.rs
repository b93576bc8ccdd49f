//! The queue of urls that wait to be crawled.

use vstd::prelude::*;
use std::collections::VecDeque;
use crate::text::strings_view;

verus! {

/// A first-in first-out queue of distinct urls, bounded by the capacity it
/// was made with.
pub struct UrlQueue {
    urls: VecDeque<String>,
    capacity: usize,
}

/// The contents of a `UrlQueue`: its urls, oldest first, and its capacity.
pub struct QueueState {
    pub urls: Seq<Seq<char>>,
    pub capacity: nat,
}

impl View for UrlQueue {
    type V = QueueState;

    closed spec fn view(&self) -> QueueState {
        QueueState { urls: strings_view(self.urls@), capacity: self.capacity as nat }
    }
}

/// What every queue keeps: no more urls than its capacity, none twice.
pub open spec fn queue_ok(q: QueueState) -> bool {
    &&& q.urls.len() <= q.capacity
    &&& q.urls.no_duplicates()
}

/// The queue `queue` and the number of urls added, after offering the first
/// `i` of `links`, where `crawled[k]` tells whether `links[k]` was crawled
/// already: a link is added unless it is queued already or was crawled, and
/// once `room` links were added the rest are not looked at.
pub open spec fn admitted(
    queue: Seq<Seq<char>>,
    links: Seq<Seq<char>>,
    crawled: Seq<bool>,
    room: nat,
    i: nat,
) -> (Seq<Seq<char>>, nat)
    decreases i,
{
    if i == 0 {
        (queue, 0)
    } else {
        let (q, c) = admitted(queue, links, crawled, room, (i - 1) as nat);
        if c >= room {
            (q, c)
        } else if q.contains(links[i - 1]) || crawled[i - 1] {
            (q, c)
        } else {
            (q.push(links[i - 1]), c + 1)
        }
    }
}

/// The urls of `queue` after `links` were offered to it with `room` free
/// places.
pub open spec fn refilled(
    queue: Seq<Seq<char>>,
    links: Seq<Seq<char>>,
    crawled: Seq<bool>,
    room: nat,
) -> Seq<Seq<char>> {
    admitted(queue, links, crawled, room, links.len()).0
}

/// Once `room` links were added, later links change nothing.
proof fn lemma_admitted_full(
    queue: Seq<Seq<char>>,
    links: Seq<Seq<char>>,
    crawled: Seq<bool>,
    room: nat,
    i: nat,
    j: nat,
)
    requires
        i <= j,
        admitted(queue, links, crawled, room, i).1 >= room,
    ensures
        admitted(queue, links, crawled, room, j) == admitted(queue, links, crawled, room, i),
    decreases j - i,
{
    if j > i {
        lemma_admitted_full(queue, links, crawled, room, i, (j - 1) as nat);
    }
}

proof fn lemma_admitted(
    queue: Seq<Seq<char>>,
    links: Seq<Seq<char>>,
    crawled: Seq<bool>,
    room: nat,
    i: nat,
)
    requires
        queue.no_duplicates(),
        i <= links.len(),
        i <= crawled.len(),
    ensures
        ({
            let (q, c) = admitted(queue, links, crawled, room, i);
            &&& c <= room
            &&& q.len() == queue.len() + c
            &&& q.subrange(0, queue.len() as int) == queue
            &&& q.no_duplicates()
            &&& forall|k: int|
                queue.len() <= k < q.len() ==> !queue.contains(#[trigger] q[k]) && exists|m: int|
                    0 <= m < i && links[m] == q[k] && !crawled[m]
        }),
    decreases i,
{
    if i > 0 {
        lemma_admitted(queue, links, crawled, room, (i - 1) as nat);
        let (q, c) = admitted(queue, links, crawled, room, (i - 1) as nat);
        if c < room && !q.contains(links[i - 1]) && !crawled[i - 1] {
            let q2 = q.push(links[i - 1]);
            assert(q2.subrange(0, queue.len() as int) =~= q.subrange(0, queue.len() as int));
            assert forall|a: int, b: int| 0 <= a < q2.len() && 0 <= b < q2.len() && a != b implies q2[a]
                != q2[b] by {
                if a == q.len() {
                    assert(q.contains(q[b]) || b == q.len());
                } else if b == q.len() {
                    assert(q.contains(q[a]));
                }
            }
            assert forall|k: int| queue.len() <= k < q2.len() implies !queue.contains(#[trigger] q2[k])
                && exists|m: int| 0 <= m < i && links[m] == q2[k] && !crawled[m] by {
                if k == q.len() {
                    if queue.contains(q2[k]) {
                        let w = choose|w: int| 0 <= w < queue.len() && queue[w] == q2[k];
                        assert(q[w] == queue[w]);
                        assert(q.contains(links[i - 1]));
                    }
                    assert(links[i - 1] == q2[k]);
                } else {
                    assert(q2[k] == q[k]);
                }
            }
        }
    }
}

/// Refilling a queue keeps what it held, in order, adds at the back only
/// links that were neither queued nor crawled, never goes past the capacity
/// and never queues a url twice.
pub proof fn law_refill(q: QueueState, links: Seq<Seq<char>>, crawled: Seq<bool>)
    requires
        queue_ok(q),
        links.len() == crawled.len(),
    ensures
        ({
            let r = refilled(q.urls, links, crawled, (q.capacity - q.urls.len()) as nat);
            &&& queue_ok(QueueState { urls: r, capacity: q.capacity })
            &&& q.urls.len() <= r.len()
            &&& r.subrange(0, q.urls.len() as int) == q.urls
            &&& forall|k: int|
                q.urls.len() <= k < r.len() ==> !q.urls.contains(#[trigger] r[k]) && exists|m: int|
                    0 <= m < links.len() && links[m] == r[k] && !crawled[m]
        }),
{
    lemma_admitted(q.urls, links, crawled, (q.capacity - q.urls.len()) as nat, links.len());
}

/// After offering the first `i` links, either `room` links were added or
/// every one of them is queued or was crawled.
proof fn lemma_admitted_covers(
    queue: Seq<Seq<char>>,
    links: Seq<Seq<char>>,
    crawled: Seq<bool>,
    room: nat,
    i: nat,
)
    requires
        i <= links.len(),
        i <= crawled.len(),
    ensures
        ({
            let (q, c) = admitted(queue, links, crawled, room, i);
            c >= room || forall|k: int| 0 <= k < i ==> crawled[k] || q.contains(#[trigger] links[k])
        }),
    decreases i,
{
    if i > 0 {
        lemma_admitted_covers(queue, links, crawled, room, (i - 1) as nat);
        let (q, c) = admitted(queue, links, crawled, room, (i - 1) as nat);
        if c < room && !q.contains(links[i - 1]) && !crawled[i - 1] {
            let q2 = q.push(links[i - 1]);
            assert forall|k: int| 0 <= k < i implies crawled[k] || q2.contains(#[trigger] links[k]) by {
                if k == i - 1 {
                    assert(q2[q.len() as int] == links[k]);
                } else if !crawled[k] {
                    let w = choose|w: int| 0 <= w < q.len() && q[w] == links[k];
                    assert(q2[w] == links[k]);
                }
            }
        }
    }
}

/// Offering links that are all queued or crawled, or with no room, changes
/// nothing.
proof fn lemma_admitted_nothing(
    queue: Seq<Seq<char>>,
    links: Seq<Seq<char>>,
    crawled: Seq<bool>,
    room: nat,
    i: nat,
)
    requires
        i <= links.len(),
        i <= crawled.len(),
        room == 0 || forall|k: int| 0 <= k < i ==> crawled[k] || queue.contains(#[trigger] links[k]),
    ensures
        admitted(queue, links, crawled, room, i) == (queue, 0nat),
    decreases i,
{
    if i > 0 {
        lemma_admitted_nothing(queue, links, crawled, room, (i - 1) as nat);
        if room != 0 {
            assert(crawled[i - 1] || queue.contains(links[i - 1]));
        }
    }
}

/// Refilling a second time from the same links and the same crawled flags
/// adds nothing: the first refill took every link it could.
pub proof fn law_refill_twice(q: QueueState, links: Seq<Seq<char>>, crawled: Seq<bool>)
    requires
        queue_ok(q),
        links.len() == crawled.len(),
    ensures
        ({
            let r1 = refilled(q.urls, links, crawled, (q.capacity - q.urls.len()) as nat);
            refilled(r1, links, crawled, (q.capacity - r1.len()) as nat) == r1
        }),
{
    let room = (q.capacity - q.urls.len()) as nat;
    lemma_admitted(q.urls, links, crawled, room, links.len());
    lemma_admitted_covers(q.urls, links, crawled, room, links.len());
    let (r1, c) = admitted(q.urls, links, crawled, room, links.len());
    lemma_admitted_nothing(r1, links, crawled, (q.capacity - r1.len()) as nat, links.len());
}

/// A refill takes every link it may until the queue is full: afterwards the
/// queue is at its capacity, or every link is queued or was crawled.
pub proof fn law_refill_fills(q: QueueState, links: Seq<Seq<char>>, crawled: Seq<bool>)
    requires
        queue_ok(q),
        links.len() == crawled.len(),
    ensures
        ({
            let r = refilled(q.urls, links, crawled, (q.capacity - q.urls.len()) as nat);
            r.len() == q.capacity || forall|k: int|
                0 <= k < links.len() ==> crawled[k] || r.contains(#[trigger] links[k])
        }),
{
    let room = (q.capacity - q.urls.len()) as nat;
    lemma_admitted(q.urls, links, crawled, room, links.len());
    lemma_admitted_covers(q.urls, links, crawled, room, links.len());
}

impl UrlQueue {
    /// An empty queue that holds at most `capacity` urls.
    pub fn with_capacity(capacity: usize) -> (q: UrlQueue)
        ensures
            q@.urls == Seq::<Seq<char>>::empty(),
            q@.capacity == capacity,
            queue_ok(q@),
    {
        let q = UrlQueue { urls: VecDeque::with_capacity(capacity), capacity };
        assert(q@.urls =~= Seq::<Seq<char>>::empty());
        q
    }

    /// The number of queued urls.
    pub fn len(&self) -> (n: usize)
        ensures
            n == self@.urls.len(),
    {
        self.urls.len()
    }

    /// Whether no url is queued.
    pub fn is_empty(&self) -> (b: bool)
        ensures
            b == (self@.urls.len() == 0),
    {
        self.urls.len() == 0
    }

    /// The capacity the queue was made with.
    pub fn capacity(&self) -> (n: usize)
        ensures
            n == self@.capacity,
    {
        self.capacity
    }

    /// Whether `url` is queued.
    pub fn contains(&self, url: &String) -> (b: bool)
        ensures
            b == self@.urls.contains(url@),
    {
        let n = self.urls.len();
        let mut i: usize = 0;
        while i < n
            invariant
                n == self@.urls.len(),
                0 <= i <= n,
                forall|k: int| 0 <= k < i ==> self@.urls[k] != url@,
            decreases n - i,
        {
            if self.urls[i] == *url {
                assert(self@.urls[i as int] == url@);
                return true;
            }
            i = i + 1;
        }
        false
    }

    /// Takes the oldest url out of the queue.
    pub fn pop_front(&mut self) -> (r: Option<String>)
        requires
            queue_ok(old(self)@),
        ensures
            queue_ok(final(self)@),
            final(self)@.capacity == old(self)@.capacity,
            match r {
                Some(u) => old(self)@.urls.len() > 0 && u@ == old(self)@.urls[0]
                    && final(self)@.urls == old(self)@.urls.drop_first(),
                None => old(self)@.urls.len() == 0 && final(self)@.urls == old(self)@.urls,
            },
    {
        let ghost before = self@.urls;
        let r = self.urls.pop_front();
        proof {
            if r is Some {
                assert(self@.urls =~= before.drop_first());
                assert forall|a: int, b: int|
                    0 <= a < self@.urls.len() && 0 <= b < self@.urls.len() && a != b implies self@.urls[a]
                    != self@.urls[b] by {
                    assert(self@.urls[a] == before[a + 1]);
                    assert(self@.urls[b] == before[b + 1]);
                }
            } else {
                assert(self@.urls =~= before);
            }
        }
        r
    }
}

/// Offers `links` to the queue, oldest first, while it has room: a link is
/// added at the back unless it is queued already or `crawled` marks it as
/// crawled already (`crawled[i]` for `links[i]`).
pub fn update_urls_queue(urls_queue: &mut UrlQueue, links: &Vec<String>, crawled: &Vec<bool>)
    requires
        queue_ok(old(urls_queue)@),
        links@.len() == crawled@.len(),
    ensures
        final(urls_queue)@.capacity == old(urls_queue)@.capacity,
        final(urls_queue)@.urls == refilled(
            old(urls_queue)@.urls,
            strings_view(links@),
            crawled@,
            (old(urls_queue)@.capacity - old(urls_queue)@.urls.len()) as nat,
        ),
        queue_ok(final(urls_queue)@),
{
    let ghost q0 = urls_queue@.urls;
    let ghost lv = strings_view(links@);
    let room = urls_queue.capacity - urls_queue.urls.len();
    let ghost room_n = room as nat;
    let n = links.len();
    let mut counter: usize = 0;
    let mut i: usize = 0;
    while i < n
        invariant
            n == links@.len(),
            n == crawled@.len(),
            lv == strings_view(links@),
            q0.no_duplicates(),
            room == urls_queue@.capacity - q0.len(),
            room_n == room,
            0 <= i <= n,
            urls_queue.capacity == old(urls_queue)@.capacity,
            q0 == old(urls_queue)@.urls,
            admitted(q0, lv, crawled@, room_n, i as nat) == (urls_queue@.urls, counter as nat),
        ensures
            admitted(q0, lv, crawled@, room_n, n as nat) == (urls_queue@.urls, counter as nat),
        decreases n - i,
    {
        if counter >= room {
            proof {
                lemma_admitted_full(q0, lv, crawled@, room_n, i as nat, n as nat);
            }
            break;
        }
        let url = &links[i];
        if !urls_queue.contains(url) && !crawled[i] {
            urls_queue.urls.push_back(url.clone());
            counter = counter + 1;
            assert(urls_queue@.urls =~= admitted(q0, lv, crawled@, room_n, (i + 1) as nat).0);
        }
        i = i + 1;
    }
    proof {
        lemma_admitted(q0, lv, crawled@, room_n, n as nat);
    }
}

} // verus!
