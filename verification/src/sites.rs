//! The list of sites to evaluate, and the report of what was found for each.

use crate::labels::{label_views, DetectionResult};
use crate::text::{chars_of, chars_views, same_text, split_chars, split_on, string_from_chars};
use vstd::prelude::*;

verus! {

/// The sites that a list names: its lines, without the empty ones.
pub open spec fn site_list(text: Seq<char>) -> Seq<Seq<char>> {
    split_on(text, '\n').filter(|line: Seq<char>| line.len() > 0)
}

/// A line break at the end of the list names no further site.
pub proof fn lemma_final_line_break_adds_no_site(text: Seq<char>)
    ensures
        site_list(text.push('\n')) == site_list(text),
{
    reveal(Seq::filter);
    let longer = text.push('\n');
    assert(longer.drop_last() == text);
    assert(split_on(longer, '\n') == split_on(text, '\n').push(Seq::<char>::empty()));
    assert(split_on(longer, '\n').drop_last() == split_on(text, '\n'));
}

/// No site of a list is the empty text.
pub proof fn lemma_no_site_is_empty(text: Seq<char>)
    ensures
        forall|i: int| 0 <= i < site_list(text).len() ==> (#[trigger] site_list(text)[i]).len() > 0,
{
    let keep = |line: Seq<char>| line.len() > 0;
    assert forall|i: int| 0 <= i < site_list(text).len() implies (#[trigger] site_list(
        text,
    )[i]).len() > 0 by {
        split_on(text, '\n').lemma_filter_pred(keep, i);
    }
}

/// The sites that the text of a list names, in its order.
pub fn get_urls(text: &str) -> (sites: Vec<String>)
    ensures
        label_views(sites@) == site_list(text@),
        forall|i: int| 0 <= i < sites.len() ==> (#[trigger] sites[i])@.len() > 0,
{
    let chars = chars_of(text);
    let lines = split_chars(&chars, '\n');
    let ghost all = chars_views(lines@);
    let ghost keep = |line: Seq<char>| line.len() > 0;
    let mut sites: Vec<String> = Vec::new();
    let mut i: usize = 0;
    proof {
        reveal(Seq::filter);
        assert(all.take(0) == Seq::<Seq<char>>::empty());
    }
    while i < lines.len()
        invariant
            i <= lines.len(),
            all == chars_views(lines@),
            keep == (|line: Seq<char>| line.len() > 0),
            label_views(sites@) == all.take(i as int).filter(keep),
            forall|k: int| 0 <= k < sites.len() ==> (#[trigger] sites[k])@.len() > 0,
        decreases lines.len() - i,
    {
        let line = &lines[i];
        proof {
            reveal(Seq::filter);
            assert(all.take(i + 1).drop_last() == all.take(i as int));
            assert(all.take(i + 1).last() == line@);
        }
        if line.len() > 0 {
            let ghost before = label_views(sites@);
            sites.push(string_from_chars(line));
            assert(label_views(sites@) == before.push(line@));
        }
        i += 1;
    }
    assert(all.take(i as int) == all);
    sites
}

/// The results of a list, each by its view.
pub open spec fn result_views(results: Seq<DetectionResult>) -> Seq<Set<Seq<char>>> {
    results.map_values(|result: DetectionResult| result@)
}

/// The map that sends each of `sites` to the result at the same position.
pub open spec fn report_map(sites: Seq<Seq<char>>, results: Seq<Set<Seq<char>>>) -> Map<
    Seq<char>,
    Set<Seq<char>>,
>
    decreases sites.len(),
{
    if sites.len() == 0 || results.len() == 0 {
        Map::empty()
    } else {
        report_map(sites.drop_last(), results.drop_last()).insert(sites.last(), results.last())
    }
}

/// With distinct sites, the map holds exactly the sites of the list, each
/// with the result at its position.
pub proof fn lemma_report_map(sites: Seq<Seq<char>>, results: Seq<Set<Seq<char>>>)
    requires
        sites.len() == results.len(),
        sites.no_duplicates(),
    ensures
        report_map(sites, results).dom() == sites.to_set(),
        forall|i: int|
            0 <= i < sites.len() ==> report_map(sites, results)[#[trigger] sites[i]] == results[i],
    decreases sites.len(),
{
    if sites.len() > 0 {
        let front = sites.drop_last();
        lemma_report_map(front, results.drop_last());
        assert(report_map(sites, results).dom() =~= sites.to_set()) by {
            assert forall|site: Seq<char>| sites.to_set().contains(site) implies report_map(
                sites,
                results,
            ).dom().contains(site) by {
                let k = choose|k: int| 0 <= k < sites.len() && sites[k] == site;
                if k < front.len() {
                    assert(front[k] == site);
                    assert(front.to_set().contains(site));
                }
            }
            assert forall|site: Seq<char>|
                report_map(sites, results).dom().contains(site) implies sites.to_set().contains(
                site,
            ) by {
                if site != sites.last() {
                    assert(front.to_set().contains(site));
                    let k = choose|k: int| 0 <= k < front.len() && front[k] == site;
                    assert(sites[k] == site);
                } else {
                    assert(sites[sites.len() - 1] == site);
                }
            }
        }
        assert forall|i: int| 0 <= i < sites.len() implies report_map(sites, results)[#[trigger] sites[i]]
            == results[i] by {
            if i < front.len() {
                assert(front[i] == sites[i]);
                assert(sites[i] != sites.last());
            }
        }
    } else {
        assert(report_map(sites, results).dom() =~= sites.to_set());
    }
}

/// Replacing the result at one position replaces the result of its site.
pub proof fn lemma_report_map_update(
    sites: Seq<Seq<char>>,
    results: Seq<Set<Seq<char>>>,
    at: int,
    result: Set<Seq<char>>,
)
    requires
        sites.len() == results.len(),
        sites.no_duplicates(),
        0 <= at < sites.len(),
    ensures
        report_map(sites, results.update(at, result)) == report_map(sites, results).insert(
            sites[at],
            result,
        ),
{
    let updated = results.update(at, result);
    lemma_report_map(sites, results);
    lemma_report_map(sites, updated);
    assert forall|site: Seq<char>| report_map(sites, updated).dom().contains(site) implies (
    #[trigger] report_map(sites, updated)[site]) == report_map(sites, results).insert(
        sites[at],
        result,
    )[site] by {
        let k = choose|k: int| 0 <= k < sites.len() && sites[k] == site;
        assert(report_map(sites, updated)[sites[k]] == updated[k]);
        assert(report_map(sites, results)[sites[k]] == results[k]);
    }
    assert(sites.to_set().contains(sites[at]));
    assert(report_map(sites, updated) =~= report_map(sites, results).insert(sites[at], result));
}

/// What was found, by site. A site is held once, at the place where it was
/// entered first.
pub struct SiteReport {
    sites: Vec<String>,
    results: Vec<DetectionResult>,
}

impl View for SiteReport {
    type V = Map<Seq<char>, Set<Seq<char>>>;

    closed spec fn view(&self) -> Map<Seq<char>, Set<Seq<char>>> {
        report_map(label_views(self.sites@), result_views(self.results@))
    }
}

impl SiteReport {
    /// Each site is held once, with a result that is a sound set.
    pub closed spec fn wf(&self) -> bool {
        &&& self.sites@.len() == self.results@.len()
        &&& label_views(self.sites@).no_duplicates()
        &&& forall|i: int| 0 <= i < self.results@.len() ==> (#[trigger] self.results@[i]).wf()
    }

    /// The sites of the report, in the order in which they were entered.
    pub closed spec fn order(&self) -> Seq<Seq<char>> {
        label_views(self.sites@)
    }

    /// The sites in order are the sites of the map, each once.
    pub proof fn lemma_order(&self)
        requires
            self.wf(),
        ensures
            self.order().no_duplicates(),
            self.order().to_set() == self@.dom(),
    {
        lemma_report_map(label_views(self.sites@), result_views(self.results@));
    }

    /// A report without sites.
    pub fn new() -> (report: SiteReport)
        ensures
            report.wf(),
            report@ == Map::<Seq<char>, Set<Seq<char>>>::empty(),
            report.order() == Seq::<Seq<char>>::empty(),
    {
        let report = SiteReport { sites: Vec::new(), results: Vec::new() };
        assert(report.order() =~= Seq::<Seq<char>>::empty());
        report
    }

    /// The number of sites in the report.
    pub fn len(&self) -> (count: usize)
        requires
            self.wf(),
        ensures
            count == self@.dom().len(),
            count == self.order().len(),
            self@.dom().finite(),
    {
        proof {
            lemma_report_map(label_views(self.sites@), result_views(self.results@));
            label_views(self.sites@).unique_seq_to_set();
            vstd::seq_lib::seq_to_set_is_finite(label_views(self.sites@));
        }
        self.sites.len()
    }

    /// The position of `site` in the report.
    fn position(&self, site: &str) -> (at: Option<usize>)
        requires
            self.wf(),
        ensures
            match at {
                Some(i) => i < self.sites@.len() && label_views(self.sites@)[i as int] == site@,
                None => !label_views(self.sites@).contains(site@),
            },
    {
        let mut i: usize = 0;
        while i < self.sites.len()
            invariant
                i <= self.sites.len(),
                forall|k: int| 0 <= k < i ==> label_views(self.sites@)[k] != site@,
            decreases self.sites.len() - i,
        {
            if same_text(self.sites[i].as_str(), site) {
                return Some(i);
            }
            i += 1;
        }
        None
    }

    /// What was found for `site`, if the report holds it.
    pub fn get(&self, site: &str) -> (found: Option<&DetectionResult>)
        requires
            self.wf(),
        ensures
            match found {
                Some(result) => result.wf() && self@.dom().contains(site@) && self@[site@]
                    == result@,
                None => !self@.dom().contains(site@),
            },
    {
        proof {
            lemma_report_map(label_views(self.sites@), result_views(self.results@));
        }
        match self.position(site) {
            Some(i) => {
                assert(result_views(self.results@)[i as int] == self.results@[i as int]@);
                Some(&self.results[i])
            },
            None => None,
        }
    }

    /// Enters what was found for `site`. Where the report holds the site
    /// already, the new result takes the place of the old one.
    pub fn insert(&mut self, site: &str, result: DetectionResult)
        requires
            old(self).wf(),
            result.wf(),
        ensures
            final(self).wf(),
            final(self)@ == old(self)@.insert(site@, result@),
            final(self).order() == if old(self)@.dom().contains(site@) {
                old(self).order()
            } else {
                old(self).order().push(site@)
            },
    {
        let ghost sites = label_views(self.sites@);
        let ghost results = result_views(self.results@);
        proof {
            lemma_report_map(sites, results);
        }
        match self.position(site) {
            Some(i) => {
                self.results.set(i, result);
                proof {
                    assert(result_views(self.results@) == results.update(i as int, result@));
                    lemma_report_map_update(sites, results, i as int, result@);
                    assert(sites.to_set().contains(sites[i as int]));
                }
            },
            None => {
                self.sites.push(site.to_owned());
                self.results.push(result);
                proof {
                    assert(label_views(self.sites@) == sites.push(site@));
                    assert(result_views(self.results@) == results.push(result@));
                    assert(sites.push(site@).drop_last() == sites);
                    assert(results.push(result@).drop_last() == results);
                }
            },
        }
    }

    /// The sites of the report, in the order in which they were entered.
    pub fn sites(&self) -> (sites: Vec<String>)
        ensures
            label_views(sites@) == self.order(),
    {
        let mut sites: Vec<String> = Vec::new();
        let mut i: usize = 0;
        while i < self.sites.len()
            invariant
                i <= self.sites.len(),
                label_views(sites@) == label_views(self.sites@).take(i as int),
            decreases self.sites.len() - i,
        {
            let site = self.sites[i].clone();
            let ghost before = label_views(sites@);
            sites.push(site);
            assert(label_views(sites@) == before.push(self.sites@[i as int]@));
            i += 1;
        }
        assert(label_views(self.sites@).take(i as int) == label_views(self.sites@));
        sites
    }
}

} // verus!
