//! The resources of one page evaluation: for each URL that was fetched, what
//! the fetch gave. A URL is recorded once; what was recorded first stays.

use crate::labels::label_views;
use crate::text::same_text;
use vstd::prelude::*;

verus! {

/// What fetching a resource gave: its text, or nothing.
pub enum FetchOutcome {
    /// The body of the response, as text.
    Content(String),
    /// The fetch failed: no content is available.
    Failed,
}

impl View for FetchOutcome {
    type V = Option<Seq<char>>;

    open spec fn view(&self) -> Option<Seq<char>> {
        match self {
            FetchOutcome::Content(text) => Some(text@),
            FetchOutcome::Failed => None,
        }
    }
}

/// The outcomes of a list, each by its view.
pub open spec fn outcome_views(outcomes: Seq<FetchOutcome>) -> Seq<Option<Seq<char>>> {
    outcomes.map_values(|outcome: FetchOutcome| outcome@)
}

/// The map that sends each of `urls` to the outcome at the same position.
pub open spec fn entries_map(urls: Seq<Seq<char>>, outcomes: Seq<Option<Seq<char>>>) -> Map<
    Seq<char>,
    Option<Seq<char>>,
>
    decreases urls.len(),
{
    if urls.len() == 0 || outcomes.len() == 0 {
        Map::empty()
    } else {
        entries_map(urls.drop_last(), outcomes.drop_last()).insert(urls.last(), outcomes.last())
    }
}

/// With distinct URLs, the map holds exactly the URLs of the list, each with
/// the outcome at its position.
pub proof fn lemma_entries_map(urls: Seq<Seq<char>>, outcomes: Seq<Option<Seq<char>>>)
    requires
        urls.len() == outcomes.len(),
        urls.no_duplicates(),
    ensures
        entries_map(urls, outcomes).dom() == urls.to_set(),
        forall|i: int|
            0 <= i < urls.len() ==> entries_map(urls, outcomes)[#[trigger] urls[i]] == outcomes[i],
    decreases urls.len(),
{
    if urls.len() > 0 {
        let front = urls.drop_last();
        lemma_entries_map(front, outcomes.drop_last());
        assert(entries_map(urls, outcomes).dom() =~= urls.to_set()) by {
            assert forall|url: Seq<char>| urls.to_set().contains(url) implies entries_map(
                urls,
                outcomes,
            ).dom().contains(url) by {
                let k = choose|k: int| 0 <= k < urls.len() && urls[k] == url;
                if k < front.len() {
                    assert(front[k] == url);
                    assert(front.to_set().contains(url));
                }
            }
            assert forall|url: Seq<char>|
                entries_map(urls, outcomes).dom().contains(url) implies urls.to_set().contains(
                url,
            ) by {
                if url != urls.last() {
                    assert(front.to_set().contains(url));
                    let k = choose|k: int| 0 <= k < front.len() && front[k] == url;
                    assert(urls[k] == url);
                } else {
                    assert(urls[urls.len() - 1] == url);
                }
            }
        }
        assert forall|i: int| 0 <= i < urls.len() implies entries_map(urls, outcomes)[#[trigger] urls[i]]
            == outcomes[i] by {
            if i < front.len() {
                assert(front[i] == urls[i]);
                assert(urls[i] != urls.last());
            }
        }
    } else {
        assert(entries_map(urls, outcomes).dom() =~= urls.to_set());
    }
}

/// The outcomes of the fetches of one page evaluation, by URL.
pub struct ResourceCache {
    urls: Vec<String>,
    outcomes: Vec<FetchOutcome>,
}

impl View for ResourceCache {
    type V = Map<Seq<char>, Option<Seq<char>>>;

    closed spec fn view(&self) -> Map<Seq<char>, Option<Seq<char>>> {
        entries_map(label_views(self.urls@), outcome_views(self.outcomes@))
    }
}

impl ResourceCache {
    /// Each URL is held once, with its outcome.
    pub closed spec fn wf(&self) -> bool {
        &&& self.urls@.len() == self.outcomes@.len()
        &&& label_views(self.urls@).no_duplicates()
    }

    /// A cache that holds nothing.
    pub fn new() -> (cache: ResourceCache)
        ensures
            cache.wf(),
            cache@ == Map::<Seq<char>, Option<Seq<char>>>::empty(),
    {
        ResourceCache { urls: Vec::new(), outcomes: Vec::new() }
    }

    /// The number of URLs recorded.
    pub fn len(&self) -> (count: usize)
        requires
            self.wf(),
        ensures
            count == self@.dom().len(),
            self@.dom().finite(),
    {
        proof {
            lemma_entries_map(label_views(self.urls@), outcome_views(self.outcomes@));
            label_views(self.urls@).unique_seq_to_set();
            vstd::seq_lib::seq_to_set_is_finite(label_views(self.urls@));
        }
        self.urls.len()
    }

    /// What was recorded for `url`, if anything.
    pub fn get(&self, url: &str) -> (outcome: Option<&FetchOutcome>)
        requires
            self.wf(),
        ensures
            match outcome {
                Some(recorded) => self@.dom().contains(url@) && self@[url@] == recorded@,
                None => !self@.dom().contains(url@),
            },
    {
        proof {
            lemma_entries_map(label_views(self.urls@), outcome_views(self.outcomes@));
        }
        let mut i: usize = 0;
        while i < self.urls.len()
            invariant
                i <= self.urls.len(),
                self.wf(),
                forall|k: int| 0 <= k < i ==> label_views(self.urls@)[k] != url@,
            decreases self.urls.len() - i,
        {
            if same_text(self.urls[i].as_str(), url) {
                proof {
                    lemma_entries_map(label_views(self.urls@), outcome_views(self.outcomes@));
                }
                assert(label_views(self.urls@)[i as int] == url@);
                assert(outcome_views(self.outcomes@)[i as int] == self.outcomes@[i as int]@);
                return Some(&self.outcomes[i]);
            }
            i += 1;
        }
        None
    }

    /// Whether something was recorded for `url`.
    pub fn contains(&self, url: &str) -> (found: bool)
        requires
            self.wf(),
        ensures
            found == self@.dom().contains(url@),
    {
        self.get(url).is_some()
    }

    /// Records the outcome of fetching `url`, unless one is recorded already.
    /// Returns whether the outcome was recorded.
    pub fn record(&mut self, url: &str, outcome: FetchOutcome) -> (recorded: bool)
        requires
            old(self).wf(),
        ensures
            final(self).wf(),
            recorded == !old(self)@.dom().contains(url@),
            final(self)@ == if recorded {
                old(self)@.insert(url@, outcome@)
            } else {
                old(self)@
            },
    {
        if self.contains(url) {
            return false;
        }
        proof {
            lemma_entries_map(label_views(self.urls@), outcome_views(self.outcomes@));
        }
        let ghost urls = label_views(self.urls@);
        let ghost outcomes = outcome_views(self.outcomes@);
        self.urls.push(url.to_owned());
        self.outcomes.push(outcome);
        proof {
            assert(label_views(self.urls@) == urls.push(url@));
            assert(outcome_views(self.outcomes@) == outcomes.push(outcome@));
            assert(urls.push(url@).drop_last() == urls);
            assert(outcomes.push(outcome@).drop_last() == outcomes);
        }
        true
    }
}

} // verus!
