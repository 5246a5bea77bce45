//! The scripts that a page references: which URLs to fetch, each once, and
//! what the fetched texts show.

use crate::cache::{FetchOutcome, ResourceCache};
use crate::document::{attribute_value, Document, Element, ElementView};
use crate::labels::{label_views, DetectionResult};
use crate::resolver::{resolve, resolve_url};
use crate::text::{chars_of, contains_chars, contains_text, same_text};
use vstd::prelude::*;

verus! {

/// The URL of the script that the element loads: it is a `script`, has a
/// `src`, and the `src` resolves against the page's URL.
pub open spec fn script_url(element: ElementView, base: Seq<char>) -> Option<Seq<char>> {
    if element.tag == "script"@ {
        match attribute_value(element.attributes, "src"@) {
            Some(src) => match resolve_url(base, src) {
                Ok(url) => Some(url),
                Err(_) => None,
            },
            None => None,
        }
    } else {
        None
    }
}

/// Some element of the page loads a script from `url`.
pub open spec fn names_script(document: Seq<ElementView>, base: Seq<char>, url: Seq<char>) -> bool {
    exists|i: int| 0 <= i < document.len() && script_url(#[trigger] document[i], base) == Some(url)
}

/// The URLs to fetch for a page: those of its scripts, in document order,
/// each at the place of its first occurrence only.
pub open spec fn fetch_plan(document: Seq<ElementView>, base: Seq<char>) -> Seq<Seq<char>>
    decreases document.len(),
{
    if document.len() == 0 {
        Seq::empty()
    } else {
        let before = fetch_plan(document.drop_last(), base);
        match script_url(document.last(), base) {
            Some(url) => if before.contains(url) {
                before
            } else {
                before.push(url)
            },
            None => before,
        }
    }
}

/// The first URL of `plan` that is not among `fetched`.
pub open spec fn first_missing(plan: Seq<Seq<char>>, fetched: Set<Seq<char>>) -> Option<Seq<char>>
    decreases plan.len(),
{
    if plan.len() == 0 {
        None
    } else if !fetched.contains(plan[0]) {
        Some(plan[0])
    } else {
        first_missing(plan.drop_first(), fetched)
    }
}

/// The text recorded for `url` holds `needle`. Nothing is shown by a URL
/// that was not fetched or whose fetch failed.
pub open spec fn resource_shows(
    cache: Map<Seq<char>, Option<Seq<char>>>,
    url: Seq<char>,
    needle: Seq<char>,
) -> bool {
    cache.dom().contains(url) && match cache[url] {
        Some(text) => contains_text(text, needle),
        None => false,
    }
}

/// The element loads a script whose recorded text holds `needle`.
pub open spec fn script_shows(
    element: ElementView,
    base: Seq<char>,
    cache: Map<Seq<char>, Option<Seq<char>>>,
    needle: Seq<char>,
) -> bool {
    match script_url(element, base) {
        Some(url) => resource_shows(cache, url, needle),
        None => false,
    }
}

/// Some script of the page has a recorded text that holds `needle`.
pub open spec fn scripts_show(
    document: Seq<ElementView>,
    base: Seq<char>,
    cache: Map<Seq<char>, Option<Seq<char>>>,
    needle: Seq<char>,
) -> bool {
    exists|i: int|
        0 <= i < document.len() && script_shows(#[trigger] document[i], base, cache, needle)
}

/// Some script of the page carries the React licence banner.
pub open spec fn shows_react(
    document: Seq<ElementView>,
    base: Seq<char>,
    cache: Map<Seq<char>, Option<Seq<char>>>,
) -> bool {
    scripts_show(document, base, cache, "@license React"@)
}

/// Some script of the page names a Vue package or carries the Vue banner.
pub open spec fn shows_vue(
    document: Seq<ElementView>,
    base: Seq<char>,
    cache: Map<Seq<char>, Option<Seq<char>>>,
) -> bool {
    scripts_show(document, base, cache, "@vue/"@) || scripts_show(
        document,
        base,
        cache,
        "Vue.js v"@,
    )
}

/// The libraries that the page's scripts show.
pub open spec fn script_labels(
    document: Seq<ElementView>,
    base: Seq<char>,
    cache: Map<Seq<char>, Option<Seq<char>>>,
) -> Set<Seq<char>> {
    Set::new(
        |label: Seq<char>|
            (label == "React"@ && shows_react(document, base, cache)) || (label == "Vue.js"@
                && shows_vue(document, base, cache)),
    )
}

/// Some URL among the first `n` of `plan` has a recorded text that holds
/// `needle`.
pub open spec fn plan_shows(
    plan: Seq<Seq<char>>,
    n: int,
    cache: Map<Seq<char>, Option<Seq<char>>>,
    needle: Seq<char>,
) -> bool {
    exists|k: int| 0 <= k < n && k < plan.len() && resource_shows(cache, #[trigger] plan[k], needle)
}

/// The plan names each script URL of the page, and no other.
pub proof fn lemma_fetch_plan_covers(document: Seq<ElementView>, base: Seq<char>, url: Seq<char>)
    ensures
        fetch_plan(document, base).contains(url) <==> names_script(document, base, url),
    decreases document.len(),
{
    if document.len() > 0 {
        let front = document.drop_last();
        let before = fetch_plan(front, base);
        lemma_fetch_plan_covers(front, base, url);
        if names_script(document, base, url) {
            let i = choose|i: int|
                0 <= i < document.len() && script_url(#[trigger] document[i], base) == Some(url);
            if i < front.len() {
                assert(front[i] == document[i]);
                assert(names_script(front, base, url));
                let k = choose|k: int| 0 <= k < before.len() && before[k] == url;
                assert(fetch_plan(document, base)[k] == url);
            } else {
                if !before.contains(url) {
                    assert(before.push(url)[before.len() as int] == url);
                }
            }
        }
        if fetch_plan(document, base).contains(url) {
            if before.contains(url) {
                let i = choose|i: int|
                    0 <= i < front.len() && script_url(#[trigger] front[i], base) == Some(url);
                assert(document[i] == front[i]);
            } else {
                assert(script_url(document[document.len() - 1], base) == Some(url));
            }
        }
    }
}

/// No URL occurs twice in the plan: each is fetched once, however many
/// scripts of the page name it.
pub proof fn lemma_fetch_plan_distinct(document: Seq<ElementView>, base: Seq<char>)
    ensures
        fetch_plan(document, base).no_duplicates(),
    decreases document.len(),
{
    if document.len() > 0 {
        lemma_fetch_plan_distinct(document.drop_last(), base);
    }
}

/// A URL that has been recorded is not asked for again.
pub proof fn lemma_first_missing(plan: Seq<Seq<char>>, fetched: Set<Seq<char>>)
    ensures
        match first_missing(plan, fetched) {
            Some(url) => plan.contains(url) && !fetched.contains(url),
            None => forall|k: int| 0 <= k < plan.len() ==> fetched.contains(#[trigger] plan[k]),
        },
    decreases plan.len(),
{
    if plan.len() > 0 && fetched.contains(plan[0]) {
        let rest = plan.drop_first();
        lemma_first_missing(rest, fetched);
        match first_missing(rest, fetched) {
            Some(url) => {
                let k = choose|k: int| 0 <= k < rest.len() && rest[k] == url;
                assert(plan[k + 1] == url);
            },
            None => {
                assert forall|k: int| 0 <= k < plan.len() implies fetched.contains(
                    #[trigger] plan[k],
                ) by {
                    if k > 0 {
                        assert(rest[k - 1] == plan[k]);
                    }
                }
            },
        }
    } else if plan.len() > 0 {
        assert(plan[0] == plan[0]);
    }
}

/// What the plan's URLs show is what the page's scripts show.
pub proof fn lemma_plan_shows(
    document: Seq<ElementView>,
    base: Seq<char>,
    cache: Map<Seq<char>, Option<Seq<char>>>,
    needle: Seq<char>,
)
    ensures
        plan_shows(fetch_plan(document, base), fetch_plan(document, base).len() as int, cache, needle)
            == scripts_show(document, base, cache, needle),
{
    let plan = fetch_plan(document, base);
    if plan_shows(plan, plan.len() as int, cache, needle) {
        let k = choose|k: int|
            0 <= k < plan.len() && k < plan.len() && resource_shows(cache, #[trigger] plan[k], needle);
        lemma_fetch_plan_covers(document, base, plan[k]);
        let i = choose|i: int|
            0 <= i < document.len() && script_url(#[trigger] document[i], base) == Some(plan[k]);
        assert(script_shows(document[i], base, cache, needle));
    }
    if scripts_show(document, base, cache, needle) {
        let i = choose|i: int|
            0 <= i < document.len() && script_shows(#[trigger] document[i], base, cache, needle);
        let url = script_url(document[i], base)->0;
        lemma_fetch_plan_covers(document, base, url);
        let k = choose|k: int| 0 <= k < plan.len() && plan[k] == url;
        assert(resource_shows(cache, plan[k], needle));
    }
}

/// The URL of the script that the element loads, if it loads one.
pub fn element_script_url(element: &Element, base: &str) -> (url: Option<String>)
    ensures
        match url {
            Some(u) => script_url(element@, base@) == Some(u@),
            None => script_url(element@, base@) is None,
        },
{
    if !element.is_named("script") {
        return None;
    }
    match element.attr("src") {
        Some(src) => match resolve(base, src) {
            Ok(url) => Some(url),
            Err(_) => None,
        },
        None => None,
    }
}

/// Whether `url` is among `urls`.
fn holds_url(urls: &Vec<String>, url: &str) -> (found: bool)
    ensures
        found == label_views(urls@).contains(url@),
{
    let mut i: usize = 0;
    while i < urls.len()
        invariant
            i <= urls.len(),
            forall|k: int| 0 <= k < i ==> label_views(urls@)[k] != url@,
        decreases urls.len() - i,
    {
        if same_text(urls[i].as_str(), url) {
            assert(label_views(urls@)[i as int] == url@);
            return true;
        }
        i += 1;
    }
    false
}

/// The URLs to fetch for a page: those of its scripts, each once.
pub fn script_urls(document: &Document, base: &str) -> (urls: Vec<String>)
    ensures
        label_views(urls@) == fetch_plan(document@, base@),
{
    let mut urls: Vec<String> = Vec::new();
    let mut i: usize = 0;
    assert(document@.take(0) == Seq::<ElementView>::empty());
    while i < document.elements.len()
        invariant
            i <= document.elements.len(),
            label_views(urls@) == fetch_plan(document@.take(i as int), base@),
        decreases document.elements.len() - i,
    {
        let element = &document.elements[i];
        proof {
            assert(document@.take(i + 1).drop_last() == document@.take(i as int));
            assert(document@.take(i + 1).last() == element@);
        }
        match element_script_url(element, base) {
            Some(url) => {
                if !holds_url(&urls, url.as_str()) {
                    let ghost before = label_views(urls@);
                    urls.push(url);
                    assert(label_views(urls@) == before.push(url@));
                }
            },
            None => {},
        }
        i += 1;
    }
    assert(document@.take(i as int) == document@);
    urls
}

/// The next URL to fetch: the first of the page's script URLs for which
/// nothing is recorded. `None` when all have been fetched.
pub fn next_fetch(document: &Document, base: &str, cache: &ResourceCache) -> (url: Option<String>)
    requires
        cache.wf(),
    ensures
        match url {
            Some(u) => first_missing(fetch_plan(document@, base@), cache@.dom()) == Some(u@),
            None => first_missing(fetch_plan(document@, base@), cache@.dom()) is None,
        },
{
    let plan = script_urls(document, base);
    first_unfetched(&plan, cache)
}

/// The first URL of `plan` for which nothing is recorded.
pub fn first_unfetched(plan: &Vec<String>, cache: &ResourceCache) -> (url: Option<String>)
    requires
        cache.wf(),
    ensures
        match url {
            Some(u) => first_missing(label_views(plan@), cache@.dom()) == Some(u@),
            None => first_missing(label_views(plan@), cache@.dom()) is None,
        },
{
    let ghost all = label_views(plan@);
    let mut i: usize = 0;
    assert(all.skip(0) == all);
    while i < plan.len()
        invariant
            i <= plan.len(),
            all == label_views(plan@),
            cache.wf(),
            first_missing(all, cache@.dom()) == first_missing(all.skip(i as int), cache@.dom()),
        decreases plan.len() - i,
    {
        proof {
            assert(all.skip(i as int).drop_first() == all.skip(i + 1));
            assert(all.skip(i as int)[0] == plan@[i as int]@);
        }
        if !cache.contains(plan[i].as_str()) {
            return Some(plan[i].clone());
        }
        i += 1;
    }
    None
}

/// The libraries that the page's scripts show, going by the texts recorded
/// in `cache`. A script that was not fetched, or whose fetch failed, shows
/// nothing.
pub fn is_react_vue(document: &Document, url: &str, cache: &ResourceCache) -> (found:
    DetectionResult)
    requires
        cache.wf(),
    ensures
        found.wf(),
        found@ == script_labels(document@, url@, cache@),
{
    let plan = script_urls(document, url);
    let react_banner = chars_of("@license React");
    let vue_package = chars_of("@vue/");
    let vue_banner = chars_of("Vue.js v");
    let mut react = false;
    let mut vue_named = false;
    let mut vue_bannered = false;
    let ghost urls = label_views(plan@);
    let mut i: usize = 0;
    while i < plan.len()
        invariant
            i <= plan.len(),
            cache.wf(),
            urls == label_views(plan@),
            react_banner@ == "@license React"@,
            vue_package@ == "@vue/"@,
            vue_banner@ == "Vue.js v"@,
            react == plan_shows(urls, i as int, cache@, "@license React"@),
            vue_named == plan_shows(urls, i as int, cache@, "@vue/"@),
            vue_bannered == plan_shows(urls, i as int, cache@, "Vue.js v"@),
        decreases plan.len() - i,
    {
        assert(urls[i as int] == plan@[i as int]@);
        match cache.get(plan[i].as_str()) {
            Some(FetchOutcome::Content(text)) => {
                let script = chars_of(text.as_str());
                if contains_chars(&script, &react_banner) {
                    react = true;
                }
                if contains_chars(&script, &vue_package) {
                    vue_named = true;
                }
                if contains_chars(&script, &vue_banner) {
                    vue_bannered = true;
                }
            },
            Some(FetchOutcome::Failed) => {},
            None => {},
        }
        i += 1;
    }
    proof {
        lemma_plan_shows(document@, url@, cache@, "@license React"@);
        lemma_plan_shows(document@, url@, cache@, "@vue/"@);
        lemma_plan_shows(document@, url@, cache@, "Vue.js v"@);
    }
    let mut found = DetectionResult::new();
    if react {
        found.insert("React");
    }
    if vue_named || vue_bannered {
        found.insert("Vue.js");
    }
    assert(found@ =~= script_labels(document@, url@, cache@));
    found
}

} // verus!
