//! The detectors that read the page alone: each looks for the markers that
//! one technology leaves in the markup.

use crate::document::{attribute_value, Document, Element, ElementView};
use crate::labels::DetectionResult;
use crate::text::{contains, contains_text, same_text, starts_with, starts_with_text};
use vstd::prelude::*;

verus! {

/// The element has an attribute `name` whose value is `value`.
pub open spec fn attribute_is(element: ElementView, name: Seq<char>, value: Seq<char>) -> bool {
    attribute_value(element.attributes, name) == Some(value)
}

/// The element has an attribute `name` whose value begins with `prefix`.
pub open spec fn attribute_starts_with(
    element: ElementView,
    name: Seq<char>,
    prefix: Seq<char>,
) -> bool {
    match attribute_value(element.attributes, name) {
        Some(value) => starts_with_text(value, prefix),
        None => false,
    }
}

/// The element has an attribute `name` in whose value `needle` occurs.
pub open spec fn attribute_contains(
    element: ElementView,
    name: Seq<char>,
    needle: Seq<char>,
) -> bool {
    match attribute_value(element.attributes, name) {
        Some(value) => contains_text(value, needle),
        None => false,
    }
}

/// A `script` element that carries the Next.js data island or loads from
/// the Next.js static path.
pub open spec fn next_js_marker(element: ElementView) -> bool {
    &&& element.tag == "script"@
    &&& (attribute_is(element, "id"@, "__NEXT_DATA__"@) || attribute_starts_with(
        element,
        "src"@,
        "/_next/static"@,
    ))
}

/// The `div` that Gatsby mounts into.
pub open spec fn gatsby_marker(element: ElementView) -> bool {
    &&& element.tag == "div"@
    &&& attribute_is(element, "id"@, "___gatsby"@)
}

/// The `div` that Nuxt mounts into, or a `script` that carries the Nuxt data
/// island or loads from the Nuxt path.
pub open spec fn nuxt_marker(element: ElementView) -> bool {
    ||| element.tag == "div"@ && attribute_is(element, "id"@, "__nuxt"@)
    ||| element.tag == "script"@ && (attribute_is(element, "id"@, "__NUXT_DATA__"@)
        || attribute_starts_with(element, "src"@, "/_nuxt/"@))
}

/// A `meta` element called `generator` in whose content `product` occurs.
pub open spec fn generator_marker(element: ElementView, product: Seq<char>) -> bool {
    &&& element.tag == "meta"@
    &&& attribute_is(element, "name"@, "generator"@)
    &&& attribute_contains(element, "content"@, product)
}

/// Some element of the page is a Next.js marker.
pub open spec fn shows_next_js(document: Seq<ElementView>) -> bool {
    exists|i: int| 0 <= i < document.len() && next_js_marker(#[trigger] document[i])
}

/// Some element of the page is the Gatsby marker.
pub open spec fn shows_gatsby(document: Seq<ElementView>) -> bool {
    exists|i: int| 0 <= i < document.len() && gatsby_marker(#[trigger] document[i])
}

/// Some element of the page is a Nuxt marker.
pub open spec fn shows_nuxt(document: Seq<ElementView>) -> bool {
    exists|i: int| 0 <= i < document.len() && nuxt_marker(#[trigger] document[i])
}

/// Some element of the page names `product` as its generator.
pub open spec fn shows_generator(document: Seq<ElementView>, product: Seq<char>) -> bool {
    exists|i: int| 0 <= i < document.len() && generator_marker(#[trigger] document[i], product)
}

/// The generators that are recognised by name.
pub open spec fn known_generator(label: Seq<char>) -> bool {
    ||| label == "WordPress"@
    ||| label == "VitePress"@
    ||| label == "VuePress"@
    ||| label == "Hugo"@
}

/// The known generators that the page names.
pub open spec fn generator_labels(document: Seq<ElementView>) -> Set<Seq<char>> {
    Set::new(|label: Seq<char>| known_generator(label) && shows_generator(document, label))
}

/// Whether the element has an attribute `name` with exactly `value`.
pub fn has_attribute(element: &Element, name: &str, value: &str) -> (found: bool)
    ensures
        found == attribute_is(element@, name@, value@),
{
    match element.attr(name) {
        Some(actual) => same_text(actual, value),
        None => false,
    }
}

/// Whether the element has an attribute `name` that begins with `prefix`.
pub fn has_attribute_prefix(element: &Element, name: &str, prefix: &str) -> (found: bool)
    ensures
        found == attribute_starts_with(element@, name@, prefix@),
{
    match element.attr(name) {
        Some(actual) => starts_with(actual, prefix),
        None => false,
    }
}

/// Whether the element has an attribute `name` in which `needle` occurs.
pub fn has_attribute_text(element: &Element, name: &str, needle: &str) -> (found: bool)
    ensures
        found == attribute_contains(element@, name@, needle@),
{
    match element.attr(name) {
        Some(actual) => contains(actual, needle),
        None => false,
    }
}

/// Whether the page carries a Next.js marker.
pub fn is_next_js(document: &Document) -> (found: bool)
    ensures
        found == shows_next_js(document@),
{
    let mut i: usize = 0;
    while i < document.elements.len()
        invariant
            i <= document.elements.len(),
            forall|k: int| 0 <= k < i ==> !next_js_marker(#[trigger] document@[k]),
        decreases document.elements.len() - i,
    {
        let element = &document.elements[i];
        assert(document@[i as int] == element@);
        if element.is_named("script") && (has_attribute(element, "id", "__NEXT_DATA__")
            || has_attribute_prefix(element, "src", "/_next/static")) {
            return true;
        }
        i += 1;
    }
    false
}

/// Whether the page carries the Gatsby marker.
pub fn is_gatsby(document: &Document) -> (found: bool)
    ensures
        found == shows_gatsby(document@),
{
    let mut i: usize = 0;
    while i < document.elements.len()
        invariant
            i <= document.elements.len(),
            forall|k: int| 0 <= k < i ==> !gatsby_marker(#[trigger] document@[k]),
        decreases document.elements.len() - i,
    {
        let element = &document.elements[i];
        assert(document@[i as int] == element@);
        if element.is_named("div") && has_attribute(element, "id", "___gatsby") {
            return true;
        }
        i += 1;
    }
    false
}

/// Whether the page carries a Nuxt marker.
pub fn is_nuxt(document: &Document) -> (found: bool)
    ensures
        found == shows_nuxt(document@),
{
    let mut i: usize = 0;
    while i < document.elements.len()
        invariant
            i <= document.elements.len(),
            forall|k: int| 0 <= k < i ==> !nuxt_marker(#[trigger] document@[k]),
        decreases document.elements.len() - i,
    {
        let element = &document.elements[i];
        assert(document@[i as int] == element@);
        if element.is_named("div") && has_attribute(element, "id", "__nuxt") {
            return true;
        }
        if element.is_named("script") && (has_attribute(element, "id", "__NUXT_DATA__")
            || has_attribute_prefix(element, "src", "/_nuxt/")) {
            return true;
        }
        i += 1;
    }
    false
}

/// Whether the page names `product` as its generator.
pub fn names_generator(document: &Document, product: &str) -> (found: bool)
    ensures
        found == shows_generator(document@, product@),
{
    let mut i: usize = 0;
    while i < document.elements.len()
        invariant
            i <= document.elements.len(),
            forall|k: int| 0 <= k < i ==> !generator_marker(#[trigger] document@[k], product@),
        decreases document.elements.len() - i,
    {
        let element = &document.elements[i];
        assert(document@[i as int] == element@);
        if element.is_named("meta") && has_attribute(element, "name", "generator")
            && has_attribute_text(element, "content", product) {
            return true;
        }
        i += 1;
    }
    false
}

/// The known generators that the page names.
pub fn is_ssg(document: &Document) -> (found: DetectionResult)
    ensures
        found.wf(),
        found@ == generator_labels(document@),
{
    let mut found = DetectionResult::new();
    if names_generator(document, "WordPress") {
        found.insert("WordPress");
    }
    if names_generator(document, "VitePress") {
        found.insert("VitePress");
    }
    if names_generator(document, "VuePress") {
        found.insert("VuePress");
    }
    if names_generator(document, "Hugo") {
        found.insert("Hugo");
    }
    assert(found@ =~= generator_labels(document@));
    found
}

} // verus!
