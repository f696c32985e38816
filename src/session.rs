//! One crawl-and-extract session as a state machine. The caller performs
//! fetches and backend calls and reports their outcomes; the session keeps
//! the crawl state, extracts, and publishes every event.

use vstd::prelude::*;
use vstd::string::*;
use crate::ai::{build_prompt, prompt_text};
use crate::channel::Hub;
use crate::extract::{all_valid, discover_links, extracted, resolved, anchor_hrefs, views, Extractor};
use crate::models::{Event, ScrapeError, ScrapeParams};
use crate::scheduler::{CrawlJob, Step};

verus! {

/// Limits that the deployment supplies. The delay is in milliseconds.
#[derive(Clone, Copy, Debug, PartialEq, Eq, Structural)]
pub struct CrawlConfig {
    pub delay: u64,
    pub max_concurrency: usize,
    pub max_pages: usize,
}

#[derive(Clone, Copy, Debug, PartialEq, Eq, Structural)]
pub enum Phase {
    Running,
    Completed,
    Failed,
}

pub struct Session {
    pub params: ScrapeParams,
    pub extractor: Extractor,
    pub job: CrawlJob,
    /// Structured items gathered from every page so far.
    pub items: Vec<serde_json::Value>,
    pub phase: Phase,
}

/// A request can start: it names a start URL, and field tags whenever AI
/// extraction is asked for, and every selector parses.
pub open spec fn request_valid(p: ScrapeParams, selectors: Seq<Seq<char>>) -> bool {
    &&& p.url@.len() > 0
    &&& (p.enable_scraping ==> p.tags@.len() > 0)
    &&& all_valid(selectors)
}

/// Limits under which a crawl can make progress.
pub open spec fn config_valid(c: CrawlConfig) -> bool {
    c.max_concurrency > 0
}

/// The log grew by `added` events, each a raw fragment, in order.
pub open spec fn raw_items_published(before: Seq<Event>, after: Seq<Event>, added: Seq<Seq<char>>) -> bool {
    &&& after.len() == before.len() + added.len()
    &&& after.subrange(0, before.len() as int) == before
    &&& forall|k: int| 0 <= k < added.len() ==> (#[trigger] after[before.len() + k] matches Event::RawItem(t) && t@ == added[k])
}

/// Publishes an error event carrying `message`.
fn publish_error(hub: &mut Hub, message: &str)
    requires
        old(hub).wf(),
    ensures
        final(hub).wf(),
        old(hub).log@.len() < usize::MAX ==> final(hub).log@.len() == old(hub).log@.len() + 1
            && final(hub).log@.drop_last() == old(hub).log@ && (final(hub).log@.last() matches Event::Error(m) && m@ == message@),
        old(hub).log@.len() == usize::MAX ==> final(hub).log@ == old(hub).log@,
{
    let ghost before = hub.log@;
    hub.publish(Event::Error(String::from_str(message)));
    assert(old(hub).log@.len() < usize::MAX ==> hub.log@.drop_last() =~= before);
}

/// The text of an error.
pub fn error_message(e: &ScrapeError) -> (r: String)
    ensures
        match e {
            ScrapeError::Fetch(m) => r@ == m@,
            ScrapeError::Parse(m) => r@ == m@,
            ScrapeError::AI(m) => r@ == m@,
            ScrapeError::InvalidRequest(m) => r@ == m@,
            ScrapeError::ChannelClosed => r@ == "subscriber disconnected"@,
        },
{
    match e {
        ScrapeError::Fetch(m) => m.clone(),
        ScrapeError::Parse(m) => m.clone(),
        ScrapeError::AI(m) => m.clone(),
        ScrapeError::InvalidRequest(m) => m.clone(),
        ScrapeError::ChannelClosed => String::from_str("subscriber disconnected"),
    }
}

impl Session {
    pub open spec fn wf(&self) -> bool {
        &&& self.extractor.wf()
        &&& self.job.wf()
    }

    /// Checks the request and, when it is valid, starts a crawl seeded with
    /// its URL and publishes a progress event. An invalid request fails at
    /// once with an error event; no crawl state exists, so nothing is
    /// fetched.
    pub fn start(params: ScrapeParams, selectors: Vec<String>, config: CrawlConfig, hub: &mut Hub) -> (r: Result<Session, ScrapeError>)
        requires
            old(hub).wf(),
            old(hub).log@.len() < usize::MAX,
        ensures
            final(hub).wf(),
            r is Ok <==> (request_valid(params, views(selectors@)) && config_valid(config)),
            r matches Err(e) ==> (e is InvalidRequest && final(hub).log@.len() == old(hub).log@.len() + 1
                && final(hub).log@.last() is Error),
            r matches Ok(s) ==> {
                &&& s.wf()
                &&& s.phase == Phase::Running
                &&& s.params == params
                &&& s.extractor.selectors@ == selectors@
                &&& s.items@.len() == 0
                &&& views(s.job.frontier@) == seq![params.url@]
                &&& s.job.visited@.len() == 0
                &&& s.job.in_flight == 0
                &&& s.job.max_pages == config.max_pages
                &&& s.job.max_concurrency == config.max_concurrency
                &&& s.job.delay == config.delay
                &&& final(hub).log@.len() == old(hub).log@.len() + 1
                &&& final(hub).log@.last() is Progress
            },
    {
        if params.url.as_str().is_empty() {
            publish_error(hub, "invalid request: empty start URL");
            return Err(ScrapeError::InvalidRequest(String::from_str("empty start URL")));
        }
        if params.enable_scraping && params.tags.len() == 0 {
            publish_error(hub, "invalid request: no fields to extract");
            return Err(ScrapeError::InvalidRequest(String::from_str("no fields to extract")));
        }
        if config.max_concurrency == 0 {
            publish_error(hub, "invalid request: concurrency limit of zero");
            return Err(ScrapeError::InvalidRequest(String::from_str("concurrency limit of zero")));
        }
        let extractor = match Extractor::new(selectors) {
            Ok(x) => x,
            Err(e) => {
                let msg = error_message(&e);
                publish_error(hub, msg.as_str());
                return Err(e);
            },
        };
        let mut seeds: Vec<String> = Vec::new();
        seeds.push(params.url.clone());
        let job = CrawlJob::new(seeds, config.delay, config.max_concurrency, config.max_pages);
        proof {
            assert(views(seeds@) =~= seq![params.url@]);
            let e = Seq::<Seq<char>>::empty();
            assert(views(seeds@).drop_last() =~= e);
            assert(crate::scheduler::dedup(e) == e);
            assert(!e.contains(params.url@));
            assert(e.push(params.url@) =~= seq![params.url@]);
            assert(crate::scheduler::dedup(views(seeds@)) =~= seq![params.url@]);
        }
        hub.publish(Event::Progress(String::from_str("Starting crawl")));
        Ok(Session { params, extractor, job, items: Vec::new(), phase: Phase::Running })
    }

    /// Asks the crawl what to do at `now`. Once the session has ended
    /// nothing more is dispatched.
    pub fn next_step(&mut self, now: u64) -> (r: Step)
        requires
            old(self).wf(),
        ensures
            final(self).wf(),
            final(self).params == old(self).params,
            final(self).extractor == old(self).extractor,
            final(self).items == old(self).items,
            final(self).phase == old(self).phase,
            final(self).job.max_pages == old(self).job.max_pages,
            final(self).job.max_concurrency == old(self).job.max_concurrency,
            final(self).job.delay == old(self).job.delay,
            final(self).job.pages_fetched == old(self).job.pages_fetched,
            r is Dispatch <==> (old(self).phase == Phase::Running && old(self).job.ready(now)),
            r matches Step::Dispatch(u) ==> {
                &&& !views(old(self).job.visited@).contains(u@)
                &&& views(final(self).job.visited@) == views(old(self).job.visited@).push(u@)
                &&& final(self).job.in_flight == old(self).job.in_flight + 1
                &&& final(self).job.last_dispatch == Some(now)
            },
            !(r is Dispatch) ==> final(self).job.visited@ == old(self).job.visited@
                && final(self).job.in_flight == old(self).job.in_flight
                && final(self).job.last_dispatch == old(self).job.last_dispatch,
            (r is Finished) ==> final(self).job.in_flight == 0,
            old(self).phase == Phase::Running ==> {
                &&& (r is Finished <==> (old(self).job.exhausted() && old(self).job.in_flight == 0))
                &&& (r is WaitUntil <==> old(self).job.delayed(now))
                &&& (r is AwaitResults <==> ((old(self).job.exhausted() && old(self).job.in_flight > 0)
                    || (!old(self).job.exhausted() && old(self).job.in_flight
                    >= old(self).job.max_concurrency)))
                &&& (r matches Step::Dispatch(u) ==> u@ == views(old(self).job.frontier@)[0]
                    && views(final(self).job.frontier@) == views(old(self).job.frontier@).drop_first())
                &&& (r matches Step::WaitUntil(t) ==> t == old(self).job.earliest())
                &&& (!(r is Dispatch) && old(self).job.cap_reached() ==> final(self).job.frontier@.len() == 0)
                &&& (!(r is Dispatch) && !old(self).job.cap_reached() ==> final(self).job.frontier@
                    == old(self).job.frontier@)
            },
            old(self).phase != Phase::Running ==> {
                &&& (r is Finished <==> old(self).job.in_flight == 0)
                &&& (r is AwaitResults <==> old(self).job.in_flight > 0)
                &&& final(self).job == old(self).job
            },
    {
        if self.phase != Phase::Running {
            if self.job.in_flight == 0 {
                return Step::Finished;
            } else {
                return Step::AwaitResults;
            }
        }
        self.job.next_step(now)
    }

    /// Takes the outcome of fetching a dispatched URL. A fetched page has
    /// each fragment that the selectors match published as a raw item; when
    /// pagination is on, its links are offered to the crawl. When AI
    /// extraction is on, the prompt for the page is returned for the caller
    /// to send. A failed fetch is published as an error and adds nothing.
    /// Once the session has ended, a page that was still in flight is only
    /// counted: nothing is published, offered or returned.
    pub fn on_page(&mut self, hub: &mut Hub, url: &str, fetched: Result<String, ScrapeError>) -> (r: Option<String>)
        requires
            old(self).wf(),
            old(self).job.in_flight > 0,
            old(hub).wf(),
        ensures
            final(self).wf(),
            final(hub).wf(),
            final(self).params == old(self).params,
            final(self).extractor == old(self).extractor,
            final(self).items == old(self).items,
            final(self).phase == old(self).phase,
            final(self).job.visited@ == old(self).job.visited@,
            final(self).job.in_flight == old(self).job.in_flight - 1,
            final(self).job.pages_fetched == old(self).job.pages_fetched + 1,
            final(self).job.max_pages == old(self).job.max_pages,
            final(self).job.max_concurrency == old(self).job.max_concurrency,
            final(self).job.delay == old(self).job.delay,
            final(self).job.last_dispatch == old(self).job.last_dispatch,
            old(self).phase != Phase::Running ==> {
                &&& r is None
                &&& final(hub).log@ == old(hub).log@
                &&& views(final(self).job.frontier@) == views(old(self).job.frontier@)
            },
            old(self).phase == Phase::Running ==>             match fetched {
                Ok(html) => {
                    let frags = extracted(html@, views(old(self).extractor.selectors@));
                    let links = if old(self).params.enable_pagination {
                        resolved(url@, anchor_hrefs(html@))
                    } else {
                        Seq::<Seq<char>>::empty()
                    };
                    &&& views(final(self).job.frontier@) == crate::scheduler::enqueue_all(
                        views(old(self).job.frontier@),
                        views(old(self).job.visited@),
                        links,
                        old(self).job.cap_reached(),
                    )
                    &&& (old(hub).log@.len() + frags.len() < usize::MAX ==> raw_items_published(
                        old(hub).log@,
                        final(hub).log@,
                        frags,
                    ))
                    &&& (r is Some <==> old(self).params.enable_scraping)
                    &&& (r matches Some(p) ==> p@ == prompt_text(views(old(self).params.tags@), html@))
                },
                Err(_) => {
                    &&& r is None
                    &&& views(final(self).job.frontier@) == views(old(self).job.frontier@)
                    &&& (old(hub).log@.len() < usize::MAX ==> final(hub).log@.len() == old(
                        hub,
                    ).log@.len() + 1 && final(hub).log@.drop_last() == old(hub).log@
                        && final(hub).log@.last() is Error)
                },
            },
    {
        if self.phase != Phase::Running {
            let none: Vec<String> = Vec::new();
            self.job.complete(false, &none);
            return None;
        }
        match fetched {
            Ok(html) => {
                let frags = self.extractor.extract(html.as_str());
                let ghost before = hub.log@;
                proof {
                    assert(hub.log@.subrange(0, before.len() as int) =~= before);
                    assert(views(frags@).take(0) =~= Seq::<Seq<char>>::empty());
                }
                let mut i: usize = 0;
                while i < frags.len()
                    invariant
                        hub.wf(),
                        i <= frags@.len(),
                        before == old(hub).log@,
                        views(frags@) == extracted(html@, views(self.extractor.selectors@)),
                        self.params == old(self).params,
                        self.extractor == old(self).extractor,
                        self.job == old(self).job,
                        self.items == old(self).items,
                        self.phase == old(self).phase,
                        before.len() + frags@.len() < usize::MAX ==> raw_items_published(
                            before,
                            hub.log@,
                            views(frags@).take(i as int),
                        ),
                    decreases frags@.len() - i,
                {
                    let ghost prev = hub.log@;
                    hub.publish(Event::RawItem(frags[i].clone()));
                    proof {
                        if before.len() + frags@.len() < usize::MAX {
                            let t = views(frags@).take(i + 1);
                            let t0 = views(frags@).take(i as int);
                            assert(prev.len() == before.len() + i);
                            assert(hub.log@ == prev.push(Event::RawItem(frags@[i as int])));
                            assert(hub.log@.subrange(0, before.len() as int) =~= prev.subrange(0, before.len() as int));
                            assert forall|k: int| 0 <= k < t.len() implies (#[trigger] hub.log@[before.len() + k] matches Event::RawItem(s) && s@ == t[k]) by {
                                if k < i {
                                    assert(t[k] == t0[k]);
                                    assert(hub.log@[before.len() + k] == prev[before.len() + k]);
                                } else {
                                    assert(t[k] == frags@[i as int]@);
                                }
                            }
                        }
                    }
                    i = i + 1;
                }
                assert(views(frags@).take(frags@.len() as int) =~= views(frags@));
                let links = if self.params.enable_pagination {
                    discover_links(url, html.as_str())
                } else {
                    Vec::new()
                };
                assert(views(links@) =~= (if self.params.enable_pagination {
                    resolved(url@, anchor_hrefs(html@))
                } else {
                    Seq::<Seq<char>>::empty()
                }));
                self.job.complete(true, &links);
                if self.params.enable_scraping {
                    Some(build_prompt(&self.params.tags, html.as_str()))
                } else {
                    None
                }
            },
            Err(e) => {
                let msg = error_message(&e);
                publish_error(hub, msg.as_str());
                let none: Vec<String> = Vec::new();
                self.job.complete(false, &none);
                None
            },
        }
    }

    /// Merges the structured items of one page; a failed AI step adds none
    /// (its error event was published when it failed).
    pub fn on_ai_result(&mut self, result: Result<Vec<serde_json::Value>, ScrapeError>)
        ensures
            final(self).params == old(self).params,
            final(self).extractor == old(self).extractor,
            final(self).job == old(self).job,
            final(self).phase == old(self).phase,
            match result {
                Ok(v) => final(self).items@ == old(self).items@ + v@,
                Err(_) => final(self).items@ == old(self).items@,
            },
    {
        match result {
            Ok(v) => {
                let mut v = v;
                self.items.append(&mut v);
            },
            Err(_) => {},
        }
    }

    /// AI extraction cannot run without a backend key: when it is asked for
    /// and the key is empty, the session fails. Returns whether it goes on.
    pub fn check_api_key(&mut self, hub: &mut Hub, api_key: &str) -> (r: bool)
        requires
            old(self).wf(),
            old(self).phase == Phase::Running,
            old(hub).wf(),
        ensures
            final(self).wf(),
            final(hub).wf(),
            r <==> !(old(self).params.enable_scraping && api_key@.len() == 0),
            r ==> *final(self) == *old(self) && final(hub).log@ == old(hub).log@,
            !r ==> final(self).phase == Phase::Failed && final(self).job.frontier@.len() == 0,
            !r && old(hub).log@.len() < usize::MAX ==> final(hub).log@.len() == old(hub).log@.len() + 1
                && final(hub).log@.drop_last() == old(hub).log@ && (final(hub).log@.last() matches Event::Error(m) && m@ == "missing API key"@),
    {
        if self.params.enable_scraping && api_key.is_empty() {
            self.fail(hub, "missing API key");
            false
        } else {
            true
        }
    }

    /// Ends the session on a fatal error: the frontier is dropped so nothing
    /// more is dispatched, and the error is published.
    pub fn fail(&mut self, hub: &mut Hub, message: &str)
        requires
            old(self).wf(),
            old(self).phase == Phase::Running,
            old(hub).wf(),
        ensures
            final(self).wf(),
            final(hub).wf(),
            final(self).phase == Phase::Failed,
            final(self).job.frontier@.len() == 0,
            final(self).job.visited@ == old(self).job.visited@,
            final(self).job.in_flight == old(self).job.in_flight,
            final(self).items == old(self).items,
            old(hub).log@.len() < usize::MAX ==> final(hub).log@.len() == old(hub).log@.len() + 1
                && final(hub).log@.drop_last() == old(hub).log@ && (final(hub).log@.last() matches Event::Error(m) && m@ == message@),
    {
        self.job.frontier = Vec::new();
        self.phase = Phase::Failed;
        publish_error(hub, message);
    }

    /// Ends the session normally: every gathered item is published in one
    /// success event, whose log index is returned.
    pub fn finish(&mut self, hub: &mut Hub) -> (r: usize)
        requires
            old(self).wf(),
            old(self).phase == Phase::Running,
            old(self).job.in_flight == 0,
            old(hub).wf(),
            old(hub).log@.len() < usize::MAX,
        ensures
            final(self).wf(),
            final(hub).wf(),
            final(self).phase == Phase::Completed,
            final(self).items@.len() == 0,
            r == old(hub).log@.len(),
            final(hub).log@ == old(hub).log@.push(Event::Success(old(self).items)),
    {
        let mut items: Vec<serde_json::Value> = Vec::new();
        std::mem::swap(&mut items, &mut self.items);
        self.phase = Phase::Completed;
        let r = hub.log.len();
        hub.publish(Event::Success(items));
        r
    }
}

} // verus!
