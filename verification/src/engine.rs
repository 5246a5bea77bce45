//! The registry of detectors and the evaluation of a page: every detector
//! is run and what they find is united.

use crate::cache::ResourceCache;
use crate::detect::{
    generator_labels, is_gatsby, is_next_js, is_nuxt, is_ssg, shows_gatsby, shows_next_js,
    shows_nuxt,
};
use crate::document::{elements_of, parsed_nodes, Document, ElementView, MAX_HTML_BYTES};
use crate::labels::DetectionResult;
use crate::scripts::{is_react_vue, script_labels};
use vstd::prelude::*;
use vstd::string::StringSliceAdditionalSpecFns;

verus! {

/// One heuristic of the registry.
#[derive(Clone, Copy, Debug, PartialEq, Eq, Structural)]
pub enum Detector {
    /// Next.js, by its markers in the markup.
    NextJs,
    /// Gatsby, by its marker in the markup.
    Gatsby,
    /// Static-site generators, by the page's `generator` entry.
    Generator,
    /// Nuxt, by its markers in the markup.
    Nuxt,
    /// React and Vue, by the texts of the page's scripts.
    Scripts,
}

/// The set that holds `label` where `shown` holds, and nothing else.
pub open spec fn label_if(shown: bool, label: Seq<char>) -> Set<Seq<char>> {
    if shown {
        Set::<Seq<char>>::empty().insert(label)
    } else {
        Set::<Seq<char>>::empty()
    }
}

/// What one detector reports for a page.
pub open spec fn detector_labels(
    detector: Detector,
    document: Seq<ElementView>,
    base: Seq<char>,
    cache: Map<Seq<char>, Option<Seq<char>>>,
) -> Set<Seq<char>> {
    match detector {
        Detector::NextJs => label_if(shows_next_js(document), "Next.js"@),
        Detector::Gatsby => label_if(shows_gatsby(document), "Gatsby"@),
        Detector::Generator => generator_labels(document),
        Detector::Nuxt => label_if(shows_nuxt(document), "Nuxt.js"@),
        Detector::Scripts => script_labels(document, base, cache),
    }
}

/// What the detectors of a registry report together: the union of what each
/// reports.
pub open spec fn registry_labels(
    detectors: Seq<Detector>,
    document: Seq<ElementView>,
    base: Seq<char>,
    cache: Map<Seq<char>, Option<Seq<char>>>,
) -> Set<Seq<char>>
    decreases detectors.len(),
{
    if detectors.len() == 0 {
        Set::empty()
    } else {
        registry_labels(detectors.drop_last(), document, base, cache).union(
            detector_labels(detectors.last(), document, base, cache),
        )
    }
}

/// The detectors of the standard registry, in the order in which they run.
pub open spec fn standard_detectors() -> Seq<Detector> {
    seq![
        Detector::NextJs,
        Detector::Gatsby,
        Detector::Generator,
        Detector::Nuxt,
        Detector::Scripts,
    ]
}

/// What the markup of a page shows by itself, whatever became of its
/// scripts.
pub open spec fn markup_labels(document: Seq<ElementView>) -> Set<Seq<char>> {
    Set::new(
        |label: Seq<char>|
            {
                ||| label == "Next.js"@ && shows_next_js(document)
                ||| label == "Gatsby"@ && shows_gatsby(document)
                ||| label == "Nuxt.js"@ && shows_nuxt(document)
                ||| generator_labels(document).contains(label)
            },
    )
}

/// The technologies of a page: what its markup shows and what its scripts
/// show.
pub open spec fn technologies(
    document: Seq<ElementView>,
    base: Seq<char>,
    cache: Map<Seq<char>, Option<Seq<char>>>,
) -> Set<Seq<char>> {
    markup_labels(document).union(script_labels(document, base, cache))
}

/// The page has no `script`, `div` or `meta` element.
pub open spec fn has_no_candidates(document: Seq<ElementView>) -> bool {
    forall|i: int|
        0 <= i < document.len() ==> {
            let tag = (#[trigger] document[i]).tag;
            tag != "script"@ && tag != "div"@ && tag != "meta"@
        }
}

/// Every fetch of a script of the page has failed.
pub open spec fn all_fetches_failed(
    document: Seq<ElementView>,
    base: Seq<char>,
    cache: Map<Seq<char>, Option<Seq<char>>>,
) -> bool {
    forall|i: int|
        0 <= i < document.len() ==> match crate::scripts::script_url(#[trigger] document[i], base) {
            Some(url) => cache.dom().contains(url) ==> cache[url] is None,
            None => true,
        }
}

/// A label is reported by a registry exactly if one of its detectors
/// reports it.
pub proof fn lemma_registry_member(
    detectors: Seq<Detector>,
    document: Seq<ElementView>,
    base: Seq<char>,
    cache: Map<Seq<char>, Option<Seq<char>>>,
    label: Seq<char>,
)
    ensures
        registry_labels(detectors, document, base, cache).contains(label) <==> exists|i: int|
            0 <= i < detectors.len() && detector_labels(
                #[trigger] detectors[i],
                document,
                base,
                cache,
            ).contains(label),
    decreases detectors.len(),
{
    if detectors.len() > 0 {
        let front = detectors.drop_last();
        lemma_registry_member(front, document, base, cache, label);
        if registry_labels(detectors, document, base, cache).contains(label) {
            if registry_labels(front, document, base, cache).contains(label) {
                let i = choose|i: int|
                    0 <= i < front.len() && detector_labels(
                        #[trigger] front[i],
                        document,
                        base,
                        cache,
                    ).contains(label);
                assert(detectors[i] == front[i]);
            } else {
                assert(detector_labels(
                    detectors[detectors.len() - 1],
                    document,
                    base,
                    cache,
                ).contains(label));
            }
        }
        if exists|i: int|
            0 <= i < detectors.len() && detector_labels(
                #[trigger] detectors[i],
                document,
                base,
                cache,
            ).contains(label) {
            let i = choose|i: int|
                0 <= i < detectors.len() && detector_labels(
                    #[trigger] detectors[i],
                    document,
                    base,
                    cache,
                ).contains(label);
            if i < front.len() {
                assert(front[i] == detectors[i]);
            }
        }
    }
}

/// The order of the detectors in a registry, and how often one is
/// registered, do not change what the registry reports.
pub proof fn lemma_registry_order_is_irrelevant(
    first: Seq<Detector>,
    second: Seq<Detector>,
    document: Seq<ElementView>,
    base: Seq<char>,
    cache: Map<Seq<char>, Option<Seq<char>>>,
)
    requires
        first.to_set() == second.to_set(),
    ensures
        registry_labels(first, document, base, cache) == registry_labels(
            second,
            document,
            base,
            cache,
        ),
{
    assert forall|label: Seq<char>|
        registry_labels(first, document, base, cache).contains(label) == registry_labels(
            second,
            document,
            base,
            cache,
        ).contains(label) by {
        lemma_registry_member(first, document, base, cache, label);
        lemma_registry_member(second, document, base, cache, label);
        if registry_labels(first, document, base, cache).contains(label) {
            let i = choose|i: int|
                0 <= i < first.len() && detector_labels(
                    #[trigger] first[i],
                    document,
                    base,
                    cache,
                ).contains(label);
            assert(first.to_set().contains(first[i]));
            let k = choose|k: int| 0 <= k < second.len() && second[k] == first[i];
            assert(detector_labels(second[k], document, base, cache).contains(label));
        }
        if registry_labels(second, document, base, cache).contains(label) {
            let i = choose|i: int|
                0 <= i < second.len() && detector_labels(
                    #[trigger] second[i],
                    document,
                    base,
                    cache,
                ).contains(label);
            assert(second.to_set().contains(second[i]));
            let k = choose|k: int| 0 <= k < first.len() && first[k] == second[i];
            assert(detector_labels(first[k], document, base, cache).contains(label));
        }
    }
    assert(registry_labels(first, document, base, cache) =~= registry_labels(
        second,
        document,
        base,
        cache,
    ));
}

/// The standard registry reports the technologies of the page.
pub proof fn lemma_standard_registry(
    document: Seq<ElementView>,
    base: Seq<char>,
    cache: Map<Seq<char>, Option<Seq<char>>>,
)
    ensures
        registry_labels(standard_detectors(), document, base, cache) == technologies(
            document,
            base,
            cache,
        ),
{
    let all = standard_detectors();
    assert forall|label: Seq<char>|
        registry_labels(all, document, base, cache).contains(label) == technologies(
            document,
            base,
            cache,
        ).contains(label) by {
        lemma_registry_member(all, document, base, cache, label);
        assert(all[0] == Detector::NextJs);
        assert(all[1] == Detector::Gatsby);
        assert(all[2] == Detector::Generator);
        assert(all[3] == Detector::Nuxt);
        assert(all[4] == Detector::Scripts);
        if technologies(document, base, cache).contains(label) {
            if label == "Next.js"@ && shows_next_js(document) {
                assert(detector_labels(all[0], document, base, cache).contains(label));
            } else if label == "Gatsby"@ && shows_gatsby(document) {
                assert(detector_labels(all[1], document, base, cache).contains(label));
            } else if generator_labels(document).contains(label) {
                assert(detector_labels(all[2], document, base, cache).contains(label));
            } else if label == "Nuxt.js"@ && shows_nuxt(document) {
                assert(detector_labels(all[3], document, base, cache).contains(label));
            } else {
                assert(detector_labels(all[4], document, base, cache).contains(label));
            }
        }
    }
    assert(registry_labels(all, document, base, cache) =~= technologies(document, base, cache));
}

/// On a page without `script`, `div` and `meta` elements, and so on a page
/// without any element, every detector reports the empty set.
pub proof fn lemma_nothing_without_candidates(
    detector: Detector,
    document: Seq<ElementView>,
    base: Seq<char>,
    cache: Map<Seq<char>, Option<Seq<char>>>,
)
    requires
        has_no_candidates(document),
    ensures
        detector_labels(detector, document, base, cache) == Set::<Seq<char>>::empty(),
        technologies(document, base, cache) == Set::<Seq<char>>::empty(),
{
    assert(!shows_next_js(document));
    assert(!shows_gatsby(document));
    assert(!shows_nuxt(document));
    assert(generator_labels(document) =~= Set::<Seq<char>>::empty());
    assert(script_labels(document, base, cache) =~= Set::<Seq<char>>::empty());
    assert(technologies(document, base, cache) =~= Set::<Seq<char>>::empty());
}

/// Two evaluations of the same page with the same resources give the same
/// set: a result is determined by the page, its URL and what was fetched.
pub proof fn lemma_evaluation_is_repeatable(
    first: DetectionResult,
    second: DetectionResult,
    detectors: Seq<Detector>,
    document: Seq<ElementView>,
    base: Seq<char>,
    cache: Map<Seq<char>, Option<Seq<char>>>,
)
    requires
        first@ == registry_labels(detectors, document, base, cache),
        second@ == registry_labels(detectors, document, base, cache),
    ensures
        first@ == second@,
{
}

/// What the markup shows is reported whatever became of the scripts, and
/// where every fetch of a script failed it is all that is reported.
pub proof fn lemma_failures_are_isolated(
    document: Seq<ElementView>,
    base: Seq<char>,
    cache: Map<Seq<char>, Option<Seq<char>>>,
)
    ensures
        markup_labels(document).subset_of(technologies(document, base, cache)),
        all_fetches_failed(document, base, cache) ==> technologies(document, base, cache)
            == markup_labels(document),
{
    if all_fetches_failed(document, base, cache) {
        assert(script_labels(document, base, cache) =~= Set::<Seq<char>>::empty());
        assert(technologies(document, base, cache) =~= markup_labels(document));
    }
}

impl Detector {
    /// What the detector reports for a page.
    pub fn evaluate(&self, document: &Document, base: &str, cache: &ResourceCache) -> (found:
        DetectionResult)
        requires
            cache.wf(),
        ensures
            found.wf(),
            found@ == detector_labels(*self, document@, base@, cache@),
    {
        match self {
            Detector::NextJs => {
                let mut found = DetectionResult::new();
                if is_next_js(document) {
                    found.insert("Next.js");
                }
                found
            },
            Detector::Gatsby => {
                let mut found = DetectionResult::new();
                if is_gatsby(document) {
                    found.insert("Gatsby");
                }
                found
            },
            Detector::Generator => is_ssg(document),
            Detector::Nuxt => {
                let mut found = DetectionResult::new();
                if is_nuxt(document) {
                    found.insert("Nuxt.js");
                }
                found
            },
            Detector::Scripts => is_react_vue(document, base, cache),
        }
    }
}

/// An ordered registry of detectors.
pub struct Engine {
    detectors: Vec<Detector>,
}

impl View for Engine {
    type V = Seq<Detector>;

    closed spec fn view(&self) -> Seq<Detector> {
        self.detectors@
    }
}

impl Engine {
    /// A registry without detectors.
    pub fn new() -> (engine: Engine)
        ensures
            engine@ == Seq::<Detector>::empty(),
    {
        Engine { detectors: Vec::new() }
    }

    /// The registry of all detectors.
    pub fn standard() -> (engine: Engine)
        ensures
            engine@ == standard_detectors(),
    {
        let mut detectors: Vec<Detector> = Vec::new();
        detectors.push(Detector::NextJs);
        detectors.push(Detector::Gatsby);
        detectors.push(Detector::Generator);
        detectors.push(Detector::Nuxt);
        detectors.push(Detector::Scripts);
        assert(detectors@ =~= standard_detectors());
        Engine { detectors }
    }

    /// Adds a detector behind those that are registered.
    pub fn register(&mut self, detector: Detector)
        ensures
            final(self)@ == old(self)@.push(detector),
    {
        self.detectors.push(detector);
    }

    /// The number of detectors registered.
    pub fn len(&self) -> (count: usize)
        ensures
            count == self@.len(),
    {
        self.detectors.len()
    }

    /// Runs every detector of the registry on the page and unites what they
    /// report.
    pub fn evaluate(&self, document: &Document, base: &str, cache: &ResourceCache) -> (found:
        DetectionResult)
        requires
            cache.wf(),
        ensures
            found.wf(),
            found@ == registry_labels(self@, document@, base@, cache@),
    {
        let mut found = DetectionResult::new();
        let mut i: usize = 0;
        assert(self@.take(0) == Seq::<Detector>::empty());
        while i < self.detectors.len()
            invariant
                i <= self.detectors.len(),
                cache.wf(),
                found.wf(),
                found@ == registry_labels(self@.take(i as int), document@, base@, cache@),
            decreases self.detectors.len() - i,
        {
            proof {
                assert(self@.take(i + 1).drop_last() == self@.take(i as int));
                assert(self@.take(i + 1).last() == self.detectors@[i as int]);
            }
            let reported = self.detectors[i].evaluate(document, base, cache);
            found.extend(&reported);
            i += 1;
        }
        assert(self@.take(i as int) == self@);
        found
    }
}

/// The technologies of the page at `url`, given its parsed markup and what
/// was fetched of its scripts.
pub fn detect_technologies(document: &Document, url: &str, cache: &ResourceCache) -> (found:
    DetectionResult)
    requires
        cache.wf(),
    ensures
        found.wf(),
        found@ == technologies(document@, url@, cache@),
{
    proof {
        lemma_standard_registry(document@, url@, cache@);
    }
    Engine::standard().evaluate(document, url, cache)
}

/// The technologies of the page at `url`, given its text and what was
/// fetched of its scripts.
pub fn get_technologies(url: &str, html: &str, cache: &ResourceCache) -> (found: DetectionResult)
    requires
        html.spec_bytes().len() <= MAX_HTML_BYTES,
        cache.wf(),
    ensures
        found.wf(),
        found@ == technologies(elements_of(parsed_nodes(html@)), url@, cache@),
{
    let document = Document::parse(html);
    detect_technologies(&document, url, cache)
}

} // verus!
