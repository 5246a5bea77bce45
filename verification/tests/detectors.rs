use std::collections::HashSet;

use site_stack::detect::{is_gatsby, is_next_js, is_nuxt, is_ssg, names_generator};
use site_stack::document::{Attribute, Document, Element};
use site_stack::labels::DetectionResult;

fn set_of(result: &DetectionResult) -> HashSet<String> {
    result.labels().into_iter().collect()
}

#[test]
fn test_is_next_js() {
    let html = r#"
    <html>
    <head>
    </head>
    <body>
    <script id="__NEXT_DATA__" type="application/json">
    </script>
    </body>
    </html>
    "#;
    let document = Document::parse(html);
    assert_eq!(is_next_js(&document), true);

    let html = r#"
    <html>
    <head>
    </head>
    <body>
    <script src="/_next/static/..."></script>
    </body>
    </html>
    "#;
    let document = Document::parse(html);
    assert_eq!(is_next_js(&document), true);

    let html = r#"
    <html>
    <head>
    </head>
    <body>
    <script src="/_next/static/..."></script>
    </body>
    </html>
    "#;
    let document = Document::parse(html);
    assert_eq!(is_next_js(&document), true);

    let html = r#"
    <html>
    <head>
    </head>
    <body>
    </body>
    </html>
    "#;
    let document = Document::parse(html);
    assert_eq!(is_next_js(&document), false);
}

#[test]
fn test_is_gatsby() {
    let html = r#"
    <html>
    <head>
    </head>
    <body>
    <div id="___gatsby"></div>
    </body>
    </html>
    "#;
    let document = Document::parse(html);
    assert_eq!(is_gatsby(&document), true);

    let html = r#"
    <html>
    <head>
    </head>
    <body>
    </body>
    </html>
    "#;
    let document = Document::parse(html);
    assert_eq!(is_gatsby(&document), false);
}

#[test]
fn test_is_ssg() {
    let html = r#"
    <html>
    <head>
    <meta name="generator" content="WordPress" />
    </head>
    <body>
    </body>
    </html>
    "#;
    let document = Document::parse(html);
    let mut technologies = HashSet::new();
    technologies.insert("WordPress".to_string());
    assert_eq!(set_of(&is_ssg(&document)), technologies);

    let html = r#"
    <html>
    <head>
    <meta name="generator" content="VitePress" />
    </head>
    <body>
    </body>
    </html>
    "#;
    let document = Document::parse(html);
    let mut technologies = HashSet::new();
    technologies.insert("VitePress".to_string());
    assert_eq!(set_of(&is_ssg(&document)), technologies);

    let html = r#"
    <html>
    <head>
    <meta name="generator" content="VuePress" />
    </head>
    <body>
    </body>
    </html>
    "#;
    let document = Document::parse(html);
    let mut technologies = HashSet::new();
    technologies.insert("VuePress".to_string());
    assert_eq!(set_of(&is_ssg(&document)), technologies);

    let html = r#"
    <html>
    <head>
    <meta name="generator" content="Hugo" />
    </head>
    <body>
    </body>
    </html>
    "#;
    let document = Document::parse(html);
    let mut technologies = HashSet::new();
    technologies.insert("Hugo".to_string());
    assert_eq!(set_of(&is_ssg(&document)), technologies);

    let html = r#"
    <html>
    <head>
    </head>
    <body>
    </body>
    </html>
    "#;
    let document = Document::parse(html);
    let technologies = HashSet::new();
    assert_eq!(set_of(&is_ssg(&document)), technologies);
}

#[test]
fn test_is_nuxt() {
    let html = r#"
    <html>
    <head>
    </head>
    <body>
    <div id="__nuxt"></div>
    </body>
    </html>
    "#;
    let document = Document::parse(html);
    assert_eq!(is_nuxt(&document), true);

    let html = r#"
    <html>
    <head>
    </head>
    <body>
    <script id="__NUXT_DATA__" type="application/json">
    </script>
    </body>
    </html>
    "#;
    let document = Document::parse(html);
    assert_eq!(is_nuxt(&document), true);

    let html = r#"
    <html>
    <head>
    </head>
    <body>
    <script src="/_nuxt/..."></script>
    </body>
    </html>
    "#;
    let document = Document::parse(html);
    assert_eq!(is_nuxt(&document), true);

    let html = r#"
    <html>
    <head>
    </head>
    <body>
    </body>
    </html>
    "#;
    let document = Document::parse(html);
    assert_eq!(is_nuxt(&document), false);
}

fn element(tag: &str, attributes: &[(&str, &str)]) -> Element {
    Element::new(
        tag,
        attributes.iter().map(|(name, value)| Attribute::new(name, value)).collect(),
    )
}

#[test]
fn next_js_marker_must_sit_on_a_script() {
    let document = Document::new(vec![element("div", &[("id", "__NEXT_DATA__")])]);
    assert!(!is_next_js(&document));
    let document = Document::new(vec![element("link", &[("src", "/_next/static/a.css")])]);
    assert!(!is_next_js(&document));
    let document = Document::new(vec![
        element("div", &[("id", "x")]),
        element("script", &[("type", "module"), ("src", "/_next/static/chunks/main.js")]),
    ]);
    assert!(is_next_js(&document));
}

#[test]
fn next_js_src_must_begin_with_the_static_path() {
    let document = Document::new(vec![element("script", &[("src", "/assets/_next/static/a.js")])]);
    assert!(!is_next_js(&document));
    let document = Document::new(vec![element("script", &[("src", "/_next/stati")])]);
    assert!(!is_next_js(&document));
    let document = Document::new(vec![element("script", &[("src", "/_next/static")])]);
    assert!(is_next_js(&document));
}

#[test]
fn next_js_id_must_match_exactly() {
    let document = Document::new(vec![element("script", &[("id", "__NEXT_DATA__x")])]);
    assert!(!is_next_js(&document));
    let document = Document::new(vec![element("script", &[("id", "")])]);
    assert!(!is_next_js(&document));
}

#[test]
fn gatsby_marker_must_sit_on_a_div() {
    let document = Document::new(vec![element("section", &[("id", "___gatsby")])]);
    assert!(!is_gatsby(&document));
    let document = Document::new(vec![element("div", &[("id", "__gatsby")])]);
    assert!(!is_gatsby(&document));
    let document = Document::new(vec![element("div", &[("class", "x"), ("id", "___gatsby")])]);
    assert!(is_gatsby(&document));
}

#[test]
fn nuxt_markers_are_tied_to_their_tags() {
    let document = Document::new(vec![element("script", &[("id", "__nuxt")])]);
    assert!(!is_nuxt(&document));
    let document = Document::new(vec![element("div", &[("id", "__NUXT_DATA__")])]);
    assert!(!is_nuxt(&document));
    let document = Document::new(vec![element("div", &[("src", "/_nuxt/entry.js")])]);
    assert!(!is_nuxt(&document));
    let document = Document::new(vec![element("script", &[("src", "/_nuxt")])]);
    assert!(!is_nuxt(&document));
    let document = Document::new(vec![element("script", &[("src", "/_nuxt/")])]);
    assert!(is_nuxt(&document));
}

#[test]
fn generator_is_found_inside_a_longer_content() {
    let document = Document::parse(r#"<meta name="generator" content="Hugo 0.121.1">"#);
    assert_eq!(set_of(&is_ssg(&document)), HashSet::from(["Hugo".to_string()]));
    let document = Document::parse(r#"<meta name="generator" content="WordPress 6.4.2">"#);
    assert_eq!(set_of(&is_ssg(&document)), HashSet::from(["WordPress".to_string()]));
    assert!(names_generator(&document, "WordPress"));
    assert!(names_generator(&document, "6.4"));
    assert!(!names_generator(&document, "Hugo"));
}

#[test]
fn generator_names_are_case_sensitive() {
    let document = Document::parse(r#"<meta name="generator" content="wordpress hugo">"#);
    assert!(is_ssg(&document).is_empty());
    let document = Document::parse(r#"<meta name="Generator" content="Hugo">"#);
    assert!(is_ssg(&document).is_empty());
}

#[test]
fn generator_without_content_names_nothing() {
    let document = Document::parse(r#"<html><head><meta name="generator"></head></html>"#);
    assert!(is_ssg(&document).is_empty());
}

#[test]
fn other_meta_entries_name_no_generator() {
    let document = Document::parse(r#"<meta name="description" content="Built with Hugo">"#);
    assert!(is_ssg(&document).is_empty());
    let document = Document::new(vec![element("div", &[("name", "generator"), ("content", "Hugo")])]);
    assert!(is_ssg(&document).is_empty());
}

#[test]
fn several_generators_are_all_reported() {
    let document = Document::parse(
        r#"<meta name="generator" content="VuePress 1.9"><meta name="generator" content="Hugo and WordPress">"#,
    );
    assert_eq!(
        set_of(&is_ssg(&document)),
        HashSet::from(["VuePress".to_string(), "Hugo".to_string(), "WordPress".to_string()])
    );
}

#[test]
fn tag_names_are_matched_as_the_parser_gives_them() {
    let document = Document::parse(r#"<DIV ID="___gatsby"></DIV><SCRIPT ID="__NEXT_DATA__"></SCRIPT>"#);
    assert!(is_gatsby(&document));
    assert!(is_next_js(&document));
}

#[test]
fn empty_document_shows_nothing() {
    let document = Document::new(Vec::new());
    assert!(!is_next_js(&document));
    assert!(!is_gatsby(&document));
    assert!(!is_nuxt(&document));
    assert!(is_ssg(&document).is_empty());
    let document = Document::parse("");
    assert!(!is_next_js(&document));
    assert!(!is_gatsby(&document));
    assert!(!is_nuxt(&document));
    assert!(is_ssg(&document).is_empty());
}
