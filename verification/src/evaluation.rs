//! The evaluation of one page, step by step: it says which script to fetch
//! next, takes what the fetch gave, and reports once nothing is left to
//! fetch. Fetching itself is the caller's part.

use crate::cache::{FetchOutcome, ResourceCache};
use crate::document::{elements_of, parsed_nodes, Document, ElementView, MAX_HTML_BYTES};
use crate::engine::{detect_technologies, technologies};
use crate::labels::{label_views, DetectionResult};
use crate::scripts::{
    fetch_plan, first_missing, first_unfetched, lemma_fetch_plan_covers, lemma_first_missing,
    names_script, script_urls,
};
use vstd::prelude::*;
use vstd::string::StringSliceAdditionalSpecFns;

verus! {

/// What the caller of an evaluation does next.
pub enum Step {
    /// Fetch this URL and record what the fetch gave.
    Fetch(String),
    /// Nothing is left to fetch: these are the page's technologies.
    Done(DetectionResult),
}

/// One page under evaluation: its URL, its markup, and what has been
/// fetched of its scripts so far.
pub struct SiteEvaluation {
    url: String,
    document: Document,
    plan: Vec<String>,
    cache: ResourceCache,
}

impl SiteEvaluation {
    /// The plan is that of the page, and the cache is sound.
    pub closed spec fn wf(&self) -> bool {
        &&& self.cache.wf()
        &&& label_views(self.plan@) == fetch_plan(self.document@, self.url@)
    }

    /// The URL of the page.
    pub closed spec fn url(&self) -> Seq<char> {
        self.url@
    }

    /// The elements of the page.
    pub closed spec fn document(&self) -> Seq<ElementView> {
        self.document@
    }

    /// What has been recorded so far, by URL.
    pub closed spec fn fetched(&self) -> Map<Seq<char>, Option<Seq<char>>> {
        self.cache@
    }

    /// The URL that is to be fetched next, if any is left.
    pub open spec fn pending(&self) -> Option<Seq<char>> {
        first_missing(fetch_plan(self.document(), self.url()), self.fetched().dom())
    }

    /// Begins the evaluation of a page that has been parsed.
    pub fn begin(url: &str, document: Document) -> (evaluation: SiteEvaluation)
        ensures
            evaluation.wf(),
            evaluation.url() == url@,
            evaluation.document() == document@,
            evaluation.fetched() == Map::<Seq<char>, Option<Seq<char>>>::empty(),
    {
        let plan = script_urls(&document, url);
        SiteEvaluation { url: url.to_owned(), document, plan, cache: ResourceCache::new() }
    }

    /// Begins the evaluation of the page at `url` whose text is `html`.
    pub fn start(url: &str, html: &str) -> (evaluation: SiteEvaluation)
        requires
            html.spec_bytes().len() <= MAX_HTML_BYTES,
        ensures
            evaluation.wf(),
            evaluation.url() == url@,
            evaluation.document() == elements_of(parsed_nodes(html@)),
            evaluation.fetched() == Map::<Seq<char>, Option<Seq<char>>>::empty(),
    {
        SiteEvaluation::begin(url, Document::parse(html))
    }

    /// The URL to fetch next: the first script URL of the page for which
    /// nothing has been recorded.
    pub fn next_fetch(&self) -> (url: Option<String>)
        requires
            self.wf(),
        ensures
            match url {
                Some(u) => self.pending() == Some(u@),
                None => self.pending() is None,
            },
    {
        first_unfetched(&self.plan, &self.cache)
    }

    /// Records what fetching `url` gave. What was recorded before for the
    /// same URL stays. Returns whether the outcome was recorded.
    pub fn record(&mut self, url: &str, outcome: FetchOutcome) -> (recorded: bool)
        requires
            old(self).wf(),
        ensures
            final(self).wf(),
            final(self).url() == old(self).url(),
            final(self).document() == old(self).document(),
            recorded == !old(self).fetched().dom().contains(url@),
            final(self).fetched() == if recorded {
                old(self).fetched().insert(url@, outcome@)
            } else {
                old(self).fetched()
            },
    {
        self.cache.record(url, outcome)
    }

    /// The technologies of the page, going by what has been recorded so far.
    pub fn result(&self) -> (found: DetectionResult)
        requires
            self.wf(),
        ensures
            found.wf(),
            found@ == technologies(self.document(), self.url(), self.fetched()),
    {
        detect_technologies(&self.document, self.url.as_str(), &self.cache)
    }

    /// What to do next: fetch the pending URL, or take the result.
    pub fn step(&self) -> (step: Step)
        requires
            self.wf(),
        ensures
            match step {
                Step::Fetch(url) => self.pending() == Some(url@),
                Step::Done(found) => {
                    &&& self.pending() is None
                    &&& found.wf()
                    &&& found@ == technologies(self.document(), self.url(), self.fetched())
                },
            },
    {
        match self.next_fetch() {
            Some(url) => Step::Fetch(url),
            None => Step::Done(self.result()),
        }
    }
}

/// The URL that is asked for is one that a script of the page names and for
/// which nothing is recorded yet; and where none is asked for, something is
/// recorded for every script of the page. So each script URL is fetched
/// once, however many scripts name it.
pub proof fn lemma_each_script_is_fetched_once(
    document: Seq<ElementView>,
    base: Seq<char>,
    fetched: Set<Seq<char>>,
)
    ensures
        match first_missing(fetch_plan(document, base), fetched) {
            Some(url) => names_script(document, base, url) && !fetched.contains(url),
            None => forall|url: Seq<char>|
                names_script(document, base, url) ==> fetched.contains(url),
        },
{
    let plan = fetch_plan(document, base);
    lemma_first_missing(plan, fetched);
    match first_missing(plan, fetched) {
        Some(url) => {
            lemma_fetch_plan_covers(document, base, url);
        },
        None => {
            assert forall|url: Seq<char>| names_script(document, base, url) implies fetched.contains(
                url,
            ) by {
                lemma_fetch_plan_covers(document, base, url);
                let k = choose|k: int| 0 <= k < plan.len() && plan[k] == url;
                assert(fetched.contains(plan[k]));
            }
        },
    }
}

} // verus!
