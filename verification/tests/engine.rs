use std::collections::HashSet;

use site_stack::cache::{FetchOutcome, ResourceCache};
use site_stack::document::{Attribute, Document, Element};
use site_stack::engine::{detect_technologies, get_technologies, Detector, Engine};
use site_stack::evaluation::{SiteEvaluation, Step};
use site_stack::labels::DetectionResult;

fn set_of(result: &DetectionResult) -> HashSet<String> {
    result.labels().into_iter().collect()
}

fn names(labels: &[&str]) -> HashSet<String> {
    labels.iter().map(|label| label.to_string()).collect()
}

fn content(text: &str) -> FetchOutcome {
    FetchOutcome::Content(text.to_string())
}

const PAGE: &str = "https://example.com/docs/index.html";

#[test]
fn scenario_next_data_script_alone_gives_next_js() {
    let html = r#"<script id="__NEXT_DATA__"></script>"#;
    let found = get_technologies(PAGE, html, &ResourceCache::new());
    assert_eq!(set_of(&found), names(&["Next.js"]));
}

#[test]
fn scenario_generator_hugo_gives_hugo() {
    let html = r#"<meta name="generator" content="Hugo">"#;
    let found = get_technologies(PAGE, html, &ResourceCache::new());
    assert_eq!(set_of(&found), names(&["Hugo"]));
}

#[test]
fn scenario_gatsby_div_and_react_script_give_both() {
    let html = r#"<div id="___gatsby"></div><script src="a.js"></script>"#;
    let mut cache = ResourceCache::new();
    assert!(cache.record("https://example.com/docs/a.js", content("/** @license React v17 */")));
    let found = get_technologies(PAGE, html, &cache);
    assert_eq!(set_of(&found), names(&["Gatsby", "React"]));
}

#[test]
fn scenario_vuepress_generator_and_vue_script_give_both() {
    let html = r#"<meta name="generator" content="VuePress"><script src="/assets/app.js"></script>"#;
    let mut cache = ResourceCache::new();
    cache.record("https://example.com/assets/app.js", content("/*! Vue.js v2.6.14 */"));
    let found = get_technologies(PAGE, html, &cache);
    assert_eq!(set_of(&found), names(&["VuePress", "Vue.js"]));
}

#[test]
fn empty_document_gives_the_empty_set_for_every_detector() {
    let document = Document::new(Vec::new());
    let mut cache = ResourceCache::new();
    cache.record("https://example.com/a.js", content("@license React @vue/ Vue.js v"));
    for detector in [
        Detector::NextJs,
        Detector::Gatsby,
        Detector::Generator,
        Detector::Nuxt,
        Detector::Scripts,
    ] {
        assert!(detector.evaluate(&document, PAGE, &cache).is_empty());
    }
    assert!(detect_technologies(&document, PAGE, &cache).is_empty());
    assert!(get_technologies(PAGE, "", &cache).is_empty());
}

#[test]
fn document_without_candidates_gives_the_empty_set() {
    let html = "<html><head><title>t</title></head><body><p id=\"___gatsby\">x</p></body></html>";
    assert!(get_technologies(PAGE, html, &ResourceCache::new()).is_empty());
}

#[test]
fn evaluating_twice_gives_the_same_result() {
    let html = r#"<div id="__nuxt"></div><meta name="generator" content="VitePress"><script src="a.js"></script>"#;
    let mut cache = ResourceCache::new();
    cache.record("https://example.com/docs/a.js", content("x @vue/shared y"));
    let first = get_technologies(PAGE, html, &cache);
    let second = get_technologies(PAGE, html, &cache);
    assert!(first.same_as(&second));
    assert_eq!(first.labels(), second.labels());
    assert_eq!(set_of(&first), names(&["Nuxt.js", "VitePress", "Vue.js"]));
}

#[test]
fn failed_fetches_leave_what_the_markup_shows() {
    let html = r#"<script id="__NEXT_DATA__"></script><div id="___gatsby"></div><div id="__nuxt"></div>
        <meta name="generator" content="Hugo"><script src="a.js"></script><script src="/b.js"></script>"#;
    let mut cache = ResourceCache::new();
    cache.record("https://example.com/docs/a.js", FetchOutcome::Failed);
    cache.record("https://example.com/b.js", FetchOutcome::Failed);
    let found = get_technologies(PAGE, html, &cache);
    assert_eq!(set_of(&found), names(&["Next.js", "Gatsby", "Nuxt.js", "Hugo"]));
}

#[test]
fn one_failed_fetch_does_not_hide_another_script() {
    let html = r#"<script src="a.js"></script><script src="b.js"></script>"#;
    let mut cache = ResourceCache::new();
    cache.record("https://example.com/docs/a.js", FetchOutcome::Failed);
    cache.record("https://example.com/docs/b.js", content("@license React"));
    assert_eq!(set_of(&get_technologies(PAGE, html, &cache)), names(&["React"]));
}

#[test]
fn unresolvable_page_url_leaves_what_the_markup_shows() {
    let html = r#"<div id="___gatsby"></div><script src="a.js"></script>"#;
    let mut cache = ResourceCache::new();
    cache.record("a.js", content("@license React"));
    cache.record("page/a.js", content("@license React"));
    assert_eq!(set_of(&get_technologies("page", html, &cache)), names(&["Gatsby"]));
}

#[test]
fn scripts_that_were_not_fetched_show_nothing() {
    let html = r#"<script src="a.js"></script>"#;
    assert!(get_technologies(PAGE, html, &ResourceCache::new()).is_empty());
}

#[test]
fn registry_reports_the_union_of_its_detectors() {
    let document = Document::parse(r#"<script id="__NEXT_DATA__"></script><div id="___gatsby"></div>"#);
    let cache = ResourceCache::new();
    let mut engine = Engine::new();
    assert_eq!(engine.len(), 0);
    assert!(engine.evaluate(&document, PAGE, &cache).is_empty());
    engine.register(Detector::Gatsby);
    assert_eq!(set_of(&engine.evaluate(&document, PAGE, &cache)), names(&["Gatsby"]));
    engine.register(Detector::NextJs);
    engine.register(Detector::Gatsby);
    assert_eq!(engine.len(), 3);
    assert_eq!(set_of(&engine.evaluate(&document, PAGE, &cache)), names(&["Gatsby", "Next.js"]));
    assert_eq!(Engine::standard().len(), 5);
}

#[test]
fn registry_order_does_not_change_the_set() {
    let document = Document::parse(
        r#"<script id="__NEXT_DATA__"></script><meta name="generator" content="Hugo"><div id="__nuxt"></div>"#,
    );
    let cache = ResourceCache::new();
    let mut forward = Engine::new();
    forward.register(Detector::NextJs);
    forward.register(Detector::Generator);
    forward.register(Detector::Nuxt);
    let mut backward = Engine::new();
    backward.register(Detector::Nuxt);
    backward.register(Detector::Generator);
    backward.register(Detector::NextJs);
    let first = forward.evaluate(&document, PAGE, &cache);
    let second = backward.evaluate(&document, PAGE, &cache);
    assert!(first.same_as(&second));
    assert_eq!(first.labels(), vec!["Hugo", "Next.js", "Nuxt.js"]);
    assert_eq!(second.labels(), vec!["Hugo", "Next.js", "Nuxt.js"]);
}

#[test]
fn labels_of_a_result_come_in_the_order_of_texts() {
    let html = r#"<script src="a.js"></script><div id="__nuxt"></div><meta name="generator" content="Hugo WordPress">
        <div id="___gatsby"></div><script id="__NEXT_DATA__"></script>"#;
    let mut cache = ResourceCache::new();
    cache.record("https://example.com/docs/a.js", content("Vue.js v3 @license React"));
    let found = get_technologies(PAGE, html, &cache);
    assert_eq!(
        found.labels(),
        vec!["Gatsby", "Hugo", "Next.js", "Nuxt.js", "React", "Vue.js", "WordPress"]
    );
}

fn run(evaluation: &mut SiteEvaluation, fetch: &mut dyn FnMut(&str) -> FetchOutcome) -> DetectionResult {
    loop {
        match evaluation.step() {
            Step::Fetch(url) => {
                let outcome = fetch(&url);
                assert!(evaluation.record(&url, outcome));
            }
            Step::Done(found) => return found,
        }
    }
}

#[test]
fn scripts_with_one_url_are_fetched_once() {
    let html = r#"<script src="a.js"></script><script src="./a.js"></script>
        <script src="/docs/a.js"></script><script src="https://example.com/docs/a.js"></script>
        <script src="//example.com/docs/a.js"></script><script src="x/../a.js"></script>"#;
    let mut evaluation = SiteEvaluation::start(PAGE, html);
    let mut fetched: Vec<String> = Vec::new();
    let found = run(&mut evaluation, &mut |url| {
        fetched.push(url.to_string());
        content("@license React")
    });
    assert_eq!(fetched, vec!["https://example.com/docs/a.js"]);
    assert_eq!(set_of(&found), names(&["React"]));
}

#[test]
fn every_script_url_is_fetched_in_document_order() {
    let html = r#"<script src="b.js"></script><script></script><script src="/a.js"></script>
        <script src="b.js"></script><script src="https://cdn.example.org/c.js"></script>"#;
    let mut evaluation = SiteEvaluation::start(PAGE, html);
    let mut fetched: Vec<String> = Vec::new();
    let found = run(&mut evaluation, &mut |url| {
        fetched.push(url.to_string());
        if url.ends_with("c.js") {
            content("uses @vue/runtime-dom")
        } else {
            FetchOutcome::Failed
        }
    });
    assert_eq!(
        fetched,
        vec![
            "https://example.com/docs/b.js",
            "https://example.com/a.js",
            "https://cdn.example.org/c.js"
        ]
    );
    assert_eq!(set_of(&found), names(&["Vue.js"]));
    assert_eq!(evaluation.next_fetch(), None);
}

#[test]
fn evaluation_without_scripts_is_done_at_once() {
    let evaluation = SiteEvaluation::start(PAGE, r#"<div id="___gatsby"></div>"#);
    assert_eq!(evaluation.next_fetch(), None);
    match evaluation.step() {
        Step::Done(found) => assert_eq!(set_of(&found), names(&["Gatsby"])),
        Step::Fetch(url) => panic!("nothing to fetch, but asked for {}", url),
    }
}

#[test]
fn evaluation_keeps_what_was_recorded_first() {
    let document = Document::new(vec![Element::new("script", vec![Attribute::new("src", "a.js")])]);
    let mut evaluation = SiteEvaluation::begin(PAGE, document);
    assert_eq!(evaluation.next_fetch(), Some("https://example.com/docs/a.js".to_string()));
    assert!(evaluation.record("https://example.com/docs/a.js", FetchOutcome::Failed));
    assert!(!evaluation.record("https://example.com/docs/a.js", content("@license React")));
    assert_eq!(evaluation.next_fetch(), None);
    assert!(evaluation.result().is_empty());
}

#[test]
fn result_before_the_fetches_holds_what_the_markup_shows() {
    let html = r#"<div id="___gatsby"></div><script src="a.js"></script>"#;
    let mut evaluation = SiteEvaluation::start(PAGE, html);
    assert_eq!(set_of(&evaluation.result()), names(&["Gatsby"]));
    evaluation.record("https://example.com/docs/a.js", content("@license React"));
    assert_eq!(set_of(&evaluation.result()), names(&["Gatsby", "React"]));
}
