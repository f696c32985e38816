//! Selector-based extraction and link discovery over one page.

use vstd::prelude::*;
use vstd::string::*;
use crate::models::ScrapeError;

verus! {

/// Whether a text parses as a CSS selector group.
pub uninterp spec fn selector_valid(s: Seq<char>) -> bool;

/// The inner HTML of every element of a document that a valid selector
/// matches, in the order the parser yields them.
pub uninterp spec fn selected(html: Seq<char>, selector: Seq<char>) -> Seq<Seq<char>>;

/// The `href` values of a document's anchors.
pub uninterp spec fn anchor_hrefs(html: Seq<char>) -> Seq<Seq<char>>;

/// A reference resolved against a base URL, if both are well-formed.
pub uninterp spec fn joined_url(base: Seq<char>, href: Seq<char>) -> Option<Seq<char>>;

pub open spec fn views(v: Seq<String>) -> Seq<Seq<char>> {
    v.map_values(|s: String| s@)
}

pub open spec fn all_valid(sels: Seq<Seq<char>>) -> bool {
    forall|i: int| 0 <= i < sels.len() ==> selector_valid(#[trigger] sels[i])
}

/// Fragments of a document for a list of selectors: all matches of the
/// first selector, then all of the second, and so on.
pub open spec fn extracted(html: Seq<char>, sels: Seq<Seq<char>>) -> Seq<Seq<char>>
    decreases sels.len(),
{
    if sels.len() == 0 {
        Seq::empty()
    } else {
        extracted(html, sels.drop_last()) + selected(html, sels.last())
    }
}

/// The resolved form of each reference that resolves, in order.
pub open spec fn resolved(base: Seq<char>, hrefs: Seq<Seq<char>>) -> Seq<Seq<char>>
    decreases hrefs.len(),
{
    if hrefs.len() == 0 {
        Seq::empty()
    } else {
        let rest = resolved(base, hrefs.drop_last());
        match joined_url(base, hrefs.last()) {
            Some(u) => rest.push(u),
            None => rest,
        }
    }
}

/// Relies on scraper::Selector::parse: whether it accepts a selector group
/// depends on the text alone.
#[verifier::external_body]
fn parses_as_selector(s: &str) -> (r: bool)
    ensures
        r == selector_valid(s@),
{
    scraper::Selector::parse(s).is_ok()
}

/// Relies on scraper::Html::parse_document, Html::select and
/// ElementRef::inner_html: the matches of one selector, as text.
#[verifier::external_body]
fn select_inner_html(html: &str, selector: &str) -> (r: Vec<String>)
    requires
        selector_valid(selector@),
    ensures
        views(r@) == selected(html@, selector@),
{
    match scraper::Selector::parse(selector) {
        Ok(sel) => {
            let doc = scraper::Html::parse_document(html);
            doc.select(&sel).map(|e| e.inner_html()).collect()
        },
        Err(_) => Vec::new(),
    }
}

/// Relies on scraper's `a[href]` selection and ElementRef::attr: the
/// anchor targets of a document, as written.
#[verifier::external_body]
fn anchor_targets(html: &str) -> (r: Vec<String>)
    ensures
        views(r@) == anchor_hrefs(html@),
{
    match scraper::Selector::parse("a[href]") {
        Ok(sel) => {
            let doc = scraper::Html::parse_document(html);
            doc.select(&sel).map(|e| e.attr("href").unwrap_or_default().to_string()).collect()
        },
        Err(_) => Vec::new(),
    }
}

/// Relies on url::Url::parse and Url::join (re-exported by reqwest): a
/// reference resolved against a base, or nothing when either is malformed.
#[verifier::external_body]
fn join_url(base: &str, href: &str) -> (r: Option<String>)
    ensures
        match r {
            Some(u) => joined_url(base@, href@) == Some(u@),
            None => joined_url(base@, href@) is None,
        },
{
    reqwest::Url::parse(base).and_then(|b| b.join(href)).ok().map(|u| u.to_string())
}

/// A validated, ordered list of selectors.
pub struct Extractor {
    pub selectors: Vec<String>,
}

impl Extractor {
    pub open spec fn wf(&self) -> bool {
        all_valid(views(self.selectors@))
    }

    /// Accepts the selectors if every one of them parses; otherwise reports
    /// the request as invalid.
    pub fn new(selectors: Vec<String>) -> (r: Result<Extractor, ScrapeError>)
        ensures
            r is Ok <==> all_valid(views(selectors@)),
            r matches Ok(e) ==> e.wf() && e.selectors@ == selectors@,
            r matches Err(e) ==> e is InvalidRequest,
    {
        let mut i: usize = 0;
        while i < selectors.len()
            invariant
                i <= selectors@.len(),
                forall|j: int| 0 <= j < i ==> selector_valid(#[trigger] views(selectors@)[j]),
            decreases selectors@.len() - i,
        {
            assert(views(selectors@)[i as int] == selectors@[i as int]@);
            if !parses_as_selector(selectors[i].as_str()) {
                assert(!selector_valid(views(selectors@)[i as int]));
                let mut msg = String::from_str("malformed selector: ");
                msg.append(selectors[i].as_str());
                return Err(ScrapeError::InvalidRequest(msg));
            }
            i = i + 1;
        }
        Ok(Extractor { selectors })
    }

    /// Applies each selector in order and collects every match.
    pub fn extract(&self, html: &str) -> (r: Vec<String>)
        requires
            self.wf(),
        ensures
            views(r@) == extracted(html@, views(self.selectors@)),
    {
        let mut items: Vec<String> = Vec::new();
        let mut i: usize = 0;
        while i < self.selectors.len()
            invariant
                self.wf(),
                i <= self.selectors@.len(),
                views(items@) == extracted(html@, views(self.selectors@).take(i as int)),
            decreases self.selectors@.len() - i,
        {
            let sel = self.selectors[i].as_str();
            assert(views(self.selectors@)[i as int] == sel@);
            let mut found = select_inner_html(html, sel);
            let ghost before = views(items@);
            items.append(&mut found);
            proof {
                let sels = views(self.selectors@);
                assert(sels.take(i + 1).drop_last() =~= sels.take(i as int));
                assert(views(items@) =~= before + selected(html@, sel@));
            }
            i = i + 1;
        }
        assert(views(self.selectors@).take(self.selectors@.len() as int) =~= views(self.selectors@));
        items
    }
}

/// Every anchor target of a page resolved against the page's URL; targets
/// that do not resolve are dropped.
pub fn discover_links(page_url: &str, html: &str) -> (r: Vec<String>)
    ensures
        views(r@) == resolved(page_url@, anchor_hrefs(html@)),
{
    let hrefs = anchor_targets(html);
    let mut links: Vec<String> = Vec::new();
    let mut i: usize = 0;
    while i < hrefs.len()
        invariant
            i <= hrefs@.len(),
            views(hrefs@) == anchor_hrefs(html@),
            views(links@) == resolved(page_url@, views(hrefs@).take(i as int)),
        decreases hrefs@.len() - i,
    {
        let joined = join_url(page_url, hrefs[i].as_str());
        proof {
            assert(views(hrefs@).take(i + 1).drop_last() =~= views(hrefs@).take(i as int));
        }
        match joined {
            Some(u) => {
                links.push(u);
                assert(views(links@) =~= resolved(page_url@, views(hrefs@).take(i as int)).push(u@));
            },
            None => {},
        }
        i = i + 1;
    }
    assert(views(hrefs@).take(hrefs@.len() as int) =~= views(hrefs@));
    links
}

/// Extraction over a split list of selectors is the extraction over the
/// first part followed by the extraction over the second: matches come in
/// selector order first and document order within one selector.
pub proof fn lemma_extract_selector_order(html: Seq<char>, a: Seq<Seq<char>>, b: Seq<Seq<char>>)
    ensures
        extracted(html, a + b) == extracted(html, a) + extracted(html, b),
    decreases b.len(),
{
    if b.len() == 0 {
        assert(a + b =~= a);
        assert(extracted(html, a) + extracted(html, b) =~= extracted(html, a));
    } else {
        lemma_extract_selector_order(html, a, b.drop_last());
        assert((a + b).drop_last() =~= a + b.drop_last());
        assert((a + b).last() == b.last());
        assert(extracted(html, a + b) =~= extracted(html, a) + extracted(html, b));
    }
}

} // verus!
