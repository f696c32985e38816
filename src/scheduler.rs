//! The crawl scheduler as a state machine: the caller reports the time and
//! finished pages, and the scheduler decides what to dispatch next.

use vstd::prelude::*;
use crate::extract::views;

verus! {

/// No text occurs twice.
pub open spec fn distinct(s: Seq<Seq<char>>) -> bool {
    forall|i: int, j: int| 0 <= i < s.len() && 0 <= j < s.len() && i != j ==> s[i] != s[j]
}

/// The texts of `s` in order, each kept at its first occurrence only.
pub open spec fn dedup(s: Seq<Seq<char>>) -> Seq<Seq<char>>
    decreases s.len(),
{
    if s.len() == 0 {
        Seq::empty()
    } else {
        let r = dedup(s.drop_last());
        if r.contains(s.last()) {
            r
        } else {
            r.push(s.last())
        }
    }
}

/// The frontier after offering each link in turn: a link joins the back
/// of the queue unless the cap is reached, it was dispatched already, or
/// it is queued already.
pub open spec fn enqueue_all(
    frontier: Seq<Seq<char>>,
    visited: Seq<Seq<char>>,
    links: Seq<Seq<char>>,
    capped: bool,
) -> Seq<Seq<char>>
    decreases links.len(),
{
    if links.len() == 0 {
        frontier
    } else {
        let f = enqueue_all(frontier, visited, links.drop_last(), capped);
        let l = links.last();
        if !capped && !visited.contains(l) && !f.contains(l) {
            f.push(l)
        } else {
            f
        }
    }
}

proof fn lemma_push_contains(s: Seq<Seq<char>>, x: Seq<char>, y: Seq<char>)
    ensures
        s.push(x).contains(y) <==> (s.contains(y) || y == x),
{
    if s.contains(y) {
        let k = choose|k: int| 0 <= k < s.len() && s[k] == y;
        assert(s.push(x)[k] == y);
    }
    if y == x {
        assert(s.push(x)[s.len() as int] == y);
    }
    if s.push(x).contains(y) {
        let k = choose|k: int| 0 <= k < s.push(x).len() && s.push(x)[k] == y;
        if k < s.len() {
            assert(s[k] == y);
        }
    }
}

/// What the coordinator should do next.
pub enum Step {
    /// Fetch and extract this URL now.
    Dispatch(String),
    /// Nothing may be dispatched before this instant.
    WaitUntil(u64),
    /// Work is in flight; report a finished page before asking again.
    AwaitResults,
    /// The crawl is over: nothing queued or the cap reached, nothing in flight.
    Finished,
}

/// The runtime state of one crawl. Times are in milliseconds.
pub struct CrawlJob {
    /// URLs waiting to be dispatched, oldest first.
    pub frontier: Vec<String>,
    /// URLs dispatched so far, in dispatch order.
    pub visited: Vec<String>,
    pub in_flight: usize,
    pub pages_fetched: usize,
    pub max_pages: usize,
    pub max_concurrency: usize,
    pub delay: u64,
    pub last_dispatch: Option<u64>,
}

/// Whether `x` is among the strings of `v`.
pub fn contains_url(v: &Vec<String>, x: &String) -> (r: bool)
    ensures
        r == views(v@).contains(x@),
{
    let mut i: usize = 0;
    while i < v.len()
        invariant
            i <= v@.len(),
            forall|j: int| 0 <= j < i ==> views(v@)[j] != x@,
        decreases v@.len() - i,
    {
        if v[i] == *x {
            assert(views(v@)[i as int] == x@);
            return true;
        }
        i = i + 1;
    }
    assert(!views(v@).contains(x@));
    false
}

impl CrawlJob {
    pub open spec fn wf(&self) -> bool {
        &&& self.visited@.len() == self.pages_fetched + self.in_flight
        &&& self.visited@.len() <= self.max_pages
        &&& self.in_flight <= self.max_concurrency
        &&& distinct(views(self.visited@))
        &&& distinct(views(self.frontier@))
        &&& forall|i: int|
            0 <= i < self.frontier@.len() ==> !views(self.visited@).contains(
                #[trigger] views(self.frontier@)[i],
            )
    }

    pub open spec fn cap_reached(&self) -> bool {
        self.visited@.len() >= self.max_pages
    }

    /// The earliest instant at which the politeness delay allows a dispatch.
    pub open spec fn earliest(&self) -> int {
        match self.last_dispatch {
            None => 0,
            Some(t) => if t + self.delay > u64::MAX { u64::MAX as int } else { t + self.delay },
        }
    }

    /// Nothing more can be dispatched: the cap is reached or nothing is queued.
    pub open spec fn exhausted(&self) -> bool {
        self.cap_reached() || self.frontier@.len() == 0
    }

    /// Only the politeness delay stands between the crawl and a dispatch.
    pub open spec fn delayed(&self, now: u64) -> bool {
        &&& !self.exhausted()
        &&& self.in_flight < self.max_concurrency
        &&& self.last_dispatch is Some
        &&& now < self.last_dispatch->0 + self.delay
    }

    /// Whether a dispatch happens when the coordinator asks at `now`.
    pub open spec fn ready(&self, now: u64) -> bool {
        &&& !self.cap_reached()
        &&& self.frontier@.len() > 0
        &&& self.in_flight < self.max_concurrency
        &&& match self.last_dispatch {
            None => true,
            Some(t) => now >= t + self.delay,
        }
    }

    /// Starts a crawl from the seed URLs, each queued once, in order.
    pub fn new(seeds: Vec<String>, delay: u64, max_concurrency: usize, max_pages: usize) -> (r: CrawlJob)
        ensures
            r.wf(),
            views(r.frontier@) == dedup(views(seeds@)),
            forall|s: Seq<char>| views(r.frontier@).contains(s) <==> views(seeds@).contains(s),
            r.visited@.len() == 0,
            r.in_flight == 0,
            r.pages_fetched == 0,
            r.max_pages == max_pages,
            r.max_concurrency == max_concurrency,
            r.delay == delay,
            r.last_dispatch is None,
    {
        let mut frontier: Vec<String> = Vec::new();
        let mut i: usize = 0;
        while i < seeds.len()
            invariant
                i <= seeds@.len(),
                distinct(views(frontier@)),
                views(frontier@) == dedup(views(seeds@).take(i as int)),
                forall|s: Seq<char>|
                    views(frontier@).contains(s) <==> views(seeds@).take(i as int).contains(s),
            decreases seeds@.len() - i,
        {
            let ghost prev = views(frontier@);
            proof {
                assert(views(seeds@).take(i + 1) =~= views(seeds@).take(i as int).push(seeds@[i as int]@));
                assert(views(seeds@).take(i + 1).drop_last() =~= views(seeds@).take(i as int));
            }
            if !contains_url(&frontier, &seeds[i]) {
                frontier.push(seeds[i].clone());
                assert(views(frontier@) =~= prev.push(seeds@[i as int]@));
                assert forall|a: int, b: int|
                    0 <= a < views(frontier@).len() && 0 <= b < views(frontier@).len() && a != b
                    implies views(frontier@)[a] != views(frontier@)[b] by {
                    if a == prev.len() as int {
                        assert(prev[b] == views(frontier@)[b]);
                    } else if b == prev.len() as int {
                        assert(prev[a] == views(frontier@)[a]);
                    }
                }
            }
            proof {
                assert forall|s: Seq<char>|
                    views(frontier@).contains(s) <==> views(seeds@).take(i + 1).contains(s) by {
                    lemma_push_contains(views(seeds@).take(i as int), seeds@[i as int]@, s);
                    lemma_push_contains(prev, seeds@[i as int]@, s);
                }
            }
            i = i + 1;
        }
        assert(views(seeds@).take(seeds@.len() as int) =~= views(seeds@));
        CrawlJob {
            frontier,
            visited: Vec::new(),
            in_flight: 0,
            pages_fetched: 0,
            max_pages,
            max_concurrency,
            delay,
            last_dispatch: None,
        }
    }

    /// Decides what to do at instant `now`. A dispatch takes the oldest
    /// queued URL and records it as visited; once the cap is reached the
    /// frontier is dropped.
    pub fn next_step(&mut self, now: u64) -> (r: Step)
        requires
            old(self).wf(),
        ensures
            final(self).wf(),
            final(self).max_pages == old(self).max_pages,
            final(self).max_concurrency == old(self).max_concurrency,
            final(self).delay == old(self).delay,
            final(self).pages_fetched == old(self).pages_fetched,
            r is Dispatch <==> old(self).ready(now),
            r is Finished <==> (old(self).exhausted() && old(self).in_flight == 0),
            r is WaitUntil <==> old(self).delayed(now),
            r is AwaitResults <==> ((old(self).exhausted() && old(self).in_flight > 0) || (
            !old(self).exhausted() && old(self).in_flight >= old(self).max_concurrency)),
            r is Finished ==> final(self).in_flight == 0,
            r matches Step::Dispatch(u) ==> {
                &&& u@ == views(old(self).frontier@)[0]
                &&& !views(old(self).visited@).contains(u@)
                &&& views(final(self).visited@) == views(old(self).visited@).push(u@)
                &&& views(final(self).frontier@) == views(old(self).frontier@).drop_first()
                &&& final(self).in_flight == old(self).in_flight + 1
                &&& final(self).last_dispatch == Some(now)
            },
            !(r is Dispatch) ==> {
                &&& final(self).visited@ == old(self).visited@
                &&& final(self).in_flight == old(self).in_flight
                &&& final(self).last_dispatch == old(self).last_dispatch
            },
            (old(self).cap_reached() || old(self).frontier@.len() == 0) ==> {
                &&& (r is Finished <==> old(self).in_flight == 0)
                &&& (r is AwaitResults <==> old(self).in_flight > 0)
                &&& (old(self).cap_reached() ==> final(self).frontier@.len() == 0)
                &&& (!old(self).cap_reached() ==> final(self).frontier@ == old(self).frontier@)
            },
            (!old(self).cap_reached() && old(self).frontier@.len() > 0 && old(self).in_flight
                >= old(self).max_concurrency) ==> r is AwaitResults && final(self).frontier@
                == old(self).frontier@,
            r matches Step::WaitUntil(t) ==> t == old(self).earliest() && now
                < old(self).last_dispatch->0 + old(self).delay && final(self).frontier@
                == old(self).frontier@,
    {
        if self.visited.len() >= self.max_pages || self.frontier.len() == 0 {
            if self.visited.len() >= self.max_pages {
                self.frontier = Vec::new();
            }
            if self.in_flight == 0 {
                return Step::Finished;
            } else {
                return Step::AwaitResults;
            }
        }
        if self.in_flight >= self.max_concurrency {
            return Step::AwaitResults;
        }
        match self.last_dispatch {
            Some(t) => match t.checked_add(self.delay) {
                Some(earliest) => {
                    if now < earliest {
                        return Step::WaitUntil(earliest);
                    }
                },
                None => {
                    return Step::WaitUntil(u64::MAX);
                },
            },
            None => {},
        }
        let ghost old_frontier = views(self.frontier@);
        let ghost old_visited = views(self.visited@);
        let url = self.frontier.remove(0);
        proof {
            assert(views(self.frontier@) =~= old_frontier.drop_first());
            assert(old_frontier[0] == url@);
            assert(!old_visited.contains(url@));
        }
        let out = url.clone();
        self.visited.push(url);
        proof {
            assert(views(self.visited@) =~= old_visited.push(out@));
            assert forall|i: int| 0 <= i < self.frontier@.len() implies !views(self.visited@).contains(
                #[trigger] views(self.frontier@)[i],
            ) by {
                assert(views(self.frontier@)[i] == old_frontier[i + 1]);
                assert(!old_visited.contains(old_frontier[i + 1]));
                if views(self.visited@).contains(views(self.frontier@)[i]) {
                    let k = choose|k: int| 0 <= k < views(self.visited@).len() && views(self.visited@)[k] == views(self.frontier@)[i];
                    if k < old_visited.len() {
                        assert(old_visited[k] == views(self.frontier@)[i]);
                    }
                }
            }
            assert forall|a: int, b: int|
                0 <= a < views(self.visited@).len() && 0 <= b < views(self.visited@).len() && a != b
                implies views(self.visited@)[a] != views(self.visited@)[b] by {
                if a == old_visited.len() as int {
                    assert(old_visited[b] == views(self.visited@)[b]);
                } else if b == old_visited.len() as int {
                    assert(old_visited[a] == views(self.visited@)[a]);
                }
            }
        }
        self.in_flight = self.in_flight + 1;
        self.last_dispatch = Some(now);
        Step::Dispatch(out)
    }

    /// Records a finished page. When it succeeded, its links are offered to
    /// the frontier in order; a failed page adds nothing.
    pub fn complete(&mut self, succeeded: bool, links: &Vec<String>)
        requires
            old(self).wf(),
            old(self).in_flight > 0,
        ensures
            final(self).wf(),
            final(self).in_flight == old(self).in_flight - 1,
            final(self).pages_fetched == old(self).pages_fetched + 1,
            final(self).visited@ == old(self).visited@,
            final(self).max_pages == old(self).max_pages,
            final(self).max_concurrency == old(self).max_concurrency,
            final(self).delay == old(self).delay,
            final(self).last_dispatch == old(self).last_dispatch,
            views(final(self).frontier@) == if succeeded {
                enqueue_all(
                    views(old(self).frontier@),
                    views(old(self).visited@),
                    views(links@),
                    old(self).cap_reached(),
                )
            } else {
                views(old(self).frontier@)
            },
    {
        self.in_flight = self.in_flight - 1;
        self.pages_fetched = self.pages_fetched + 1;
        if !succeeded {
            return;
        }
        let capped = self.visited.len() >= self.max_pages;
        let ghost f0 = views(self.frontier@);
        let ghost vis = views(self.visited@);
        let mut i: usize = 0;
        while i < links.len()
            invariant
                self.wf(),
                i <= links@.len(),
                views(self.visited@) == vis,
                self.visited@ == old(self).visited@,
                self.in_flight == old(self).in_flight - 1,
                self.pages_fetched == old(self).pages_fetched + 1,
                self.max_pages == old(self).max_pages,
                self.max_concurrency == old(self).max_concurrency,
                self.delay == old(self).delay,
                self.last_dispatch == old(self).last_dispatch,
                capped == (vis.len() >= self.max_pages),
                views(self.frontier@) == enqueue_all(f0, vis, views(links@).take(i as int), capped),
            decreases links@.len() - i,
        {
            proof {
                assert(views(links@).take(i + 1).drop_last() =~= views(links@).take(i as int));
                assert(views(links@).take(i + 1).last() == links@[i as int]@);
            }
            if !capped && !contains_url(&self.visited, &links[i]) && !contains_url(&self.frontier, &links[i]) {
                let ghost prev = views(self.frontier@);
                self.frontier.push(links[i].clone());
                proof {
                    let l = links@[i as int]@;
                    assert(views(self.frontier@) =~= prev.push(l));
                    assert forall|a: int, b: int|
                        0 <= a < views(self.frontier@).len() && 0 <= b < views(self.frontier@).len() && a != b
                        implies views(self.frontier@)[a] != views(self.frontier@)[b] by {
                        if a == prev.len() as int {
                            assert(prev[b] == views(self.frontier@)[b]);
                        } else if b == prev.len() as int {
                            assert(prev[a] == views(self.frontier@)[a]);
                        }
                    }
                    assert forall|k: int| 0 <= k < self.frontier@.len() implies !views(self.visited@).contains(
                        #[trigger] views(self.frontier@)[k],
                    ) by {
                        if k < prev.len() {
                            assert(prev[k] == views(self.frontier@)[k]);
                        }
                    }
                }
            }
            i = i + 1;
        }
        assert(views(links@).take(links@.len() as int) =~= views(links@));
    }
}

/// The number of pages dispatched, and so fetched, never exceeds the cap.
pub proof fn lemma_page_cap(job: CrawlJob)
    requires
        job.wf(),
    ensures
        job.pages_fetched + job.in_flight <= job.max_pages,
        job.visited@.len() <= job.max_pages,
{
}

/// No URL is dispatched twice in one crawl.
pub proof fn lemma_fetched_once(job: CrawlJob)
    requires
        job.wf(),
    ensures
        distinct(views(job.visited@)),
{
}

/// A dispatch that follows an earlier one comes at least the politeness
/// delay later.
pub proof fn lemma_politeness(job: CrawlJob, now: u64)
    requires
        job.ready(now),
        job.last_dispatch is Some,
    ensures
        now - job.last_dispatch->0 >= job.delay,
{
}

/// With a concurrency cap of one, a dispatch only happens when nothing is
/// in flight, so fetches never overlap.
pub proof fn lemma_serial_fetches(job: CrawlJob, now: u64)
    requires
        job.wf(),
        job.max_concurrency == 1,
        job.ready(now),
    ensures
        job.in_flight == 0,
{
}

} // verus!
