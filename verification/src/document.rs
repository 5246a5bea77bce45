//! The parsed page: its elements in document order, each with its tag name
//! and attributes.

use crate::text::same_text;
use vstd::prelude::*;
use vstd::string::StringSliceAdditionalSpecFns;

verus! {

/// The largest page, in bytes, that is handed to the markup parser.
pub const MAX_HTML_BYTES: usize = 0x2000_0000;

/// The attributes of an element as written: name and value, in order.
pub type AttributesView = Seq<(Seq<char>, Seq<char>)>;

/// One attribute of an element.
pub struct Attribute {
    pub name: String,
    pub value: String,
}

/// What an element of a page is to the detectors.
pub struct ElementView {
    pub tag: Seq<char>,
    pub attributes: AttributesView,
}

/// One element of a page.
pub struct Element {
    pub tag: String,
    pub attributes: Vec<Attribute>,
}

/// What a node of the parsed page is: an element has a name, any other node
/// (text, comment) has none and no attributes.
pub struct NodeView {
    pub name: Option<Seq<char>>,
    pub attributes: AttributesView,
}

/// A node of the parsed page as the parser hands it over.
pub struct Node {
    pub name: Option<String>,
    pub attributes: Vec<Attribute>,
}

/// A page's elements in document order.
pub struct Document {
    pub elements: Vec<Element>,
}

impl View for Attribute {
    type V = (Seq<char>, Seq<char>);

    open spec fn view(&self) -> (Seq<char>, Seq<char>) {
        (self.name@, self.value@)
    }
}

/// The attributes of a list, each by its view.
pub open spec fn attribute_views(attributes: Seq<Attribute>) -> AttributesView {
    attributes.map_values(|a: Attribute| a@)
}

impl View for Element {
    type V = ElementView;

    open spec fn view(&self) -> ElementView {
        ElementView { tag: self.tag@, attributes: attribute_views(self.attributes@) }
    }
}

impl View for Node {
    type V = NodeView;

    open spec fn view(&self) -> NodeView {
        NodeView {
            name: match self.name {
                Some(name) => Some(name@),
                None => None,
            },
            attributes: attribute_views(self.attributes@),
        }
    }
}

/// The elements of a list, each by its view.
pub open spec fn element_views(elements: Seq<Element>) -> Seq<ElementView> {
    elements.map_values(|e: Element| e@)
}

/// The nodes of a list, each by its view.
pub open spec fn node_views(nodes: Seq<Node>) -> Seq<NodeView> {
    nodes.map_values(|n: Node| n@)
}

impl View for Document {
    type V = Seq<ElementView>;

    open spec fn view(&self) -> Seq<ElementView> {
        element_views(self.elements@)
    }
}

/// The value of the first attribute called `name`, if there is one.
pub open spec fn attribute_value(attributes: AttributesView, name: Seq<char>) -> Option<Seq<char>>
    decreases attributes.len(),
{
    if attributes.len() == 0 {
        None
    } else if attributes[0].0 == name {
        Some(attributes[0].1)
    } else {
        attribute_value(attributes.drop_first(), name)
    }
}

/// The element that a node stands for, if it is one.
pub open spec fn node_element(node: NodeView) -> Option<ElementView> {
    match node.name {
        Some(tag) => Some(ElementView { tag, attributes: node.attributes }),
        None => None,
    }
}

/// The elements among the nodes of a page, in the nodes' order.
pub open spec fn elements_of(nodes: Seq<NodeView>) -> Seq<ElementView> {
    nodes.filter_map(|node: NodeView| node_element(node))
}

/// The elements of a page called `tag`, in document order.
pub open spec fn elements_named(document: Seq<ElementView>, tag: Seq<char>) -> Seq<ElementView> {
    document.filter(|e: ElementView| e.tag == tag)
}

/// The nodes that the markup parser builds from a page's text, in document
/// order.
pub uninterp spec fn parsed_nodes(html: Seq<char>) -> Seq<NodeView>;

/// Parses a page with `select::document::Document::from` and lists every
/// node of the result with `Document::find`, in the order in which the
/// parser numbered them (document order): an element with the local name
/// that `Node::name` gives and the attributes that `Node::attrs` gives, any
/// other node without a name and without attributes. What the parser builds
/// depends on the text alone. Its buffers hold less than 4 GiB and grow by
/// doubling, and it panics where one would grow past that; a page within
/// `MAX_HTML_BYTES` stays clear of it even where the parser replaces a
/// character by a longer one. Nesting is followed by recursion, so the depth
/// of the markup is limited by the stack.
#[verifier::external_body]
fn parse_nodes(html: &str) -> (nodes: Vec<Node>)
    requires
        html.spec_bytes().len() <= MAX_HTML_BYTES,
    ensures
        node_views(nodes@) == parsed_nodes(html@),
{
    select::document::Document::from(html)
        .find(select::predicate::Any)
        .map(|node| Node {
            name: node.name().map(String::from),
            attributes: node
                .attrs()
                .map(|(name, value)| Attribute { name: name.to_string(), value: value.to_string() })
                .collect(),
        })
        .collect()
}

impl Attribute {
    /// An attribute with the given name and value.
    pub fn new(name: &str, value: &str) -> (attribute: Attribute)
        ensures
            attribute@ == (name@, value@),
    {
        Attribute { name: name.to_owned(), value: value.to_owned() }
    }
}

impl Element {
    /// An element with the given tag name and attributes.
    pub fn new(tag: &str, attributes: Vec<Attribute>) -> (element: Element)
        ensures
            element@.tag == tag@,
            element@.attributes == attribute_views(attributes@),
    {
        Element { tag: tag.to_owned(), attributes }
    }

    /// Whether the element's tag name is `tag`.
    pub fn is_named(&self, tag: &str) -> (named: bool)
        ensures
            named == (self@.tag == tag@),
    {
        same_text(self.tag.as_str(), tag)
    }

    /// The value of the element's first attribute called `name`.
    pub fn attr(&self, name: &str) -> (value: Option<&str>)
        ensures
            match value {
                Some(v) => attribute_value(self@.attributes, name@) == Some(v@),
                None => attribute_value(self@.attributes, name@) is None,
            },
    {
        let ghost all = self@.attributes;
        let mut i: usize = 0;
        assert(all.skip(0) == all);
        while i < self.attributes.len()
            invariant
                i <= self.attributes.len(),
                all == attribute_views(self.attributes@),
                attribute_value(all, name@) == attribute_value(all.skip(i as int), name@),
            decreases self.attributes.len() - i,
        {
            let attribute = &self.attributes[i];
            if same_text(attribute.name.as_str(), name) {
                return Some(attribute.value.as_str());
            }
            assert(all.skip(i as int).drop_first() == all.skip(i + 1));
            i += 1;
        }
        None
    }
}

impl Document {
    /// A page made of the given elements.
    pub fn new(elements: Vec<Element>) -> (document: Document)
        ensures
            document@ == element_views(elements@),
    {
        Document { elements }
    }

    /// The number of elements of the page.
    pub fn len(&self) -> (count: usize)
        ensures
            count == self@.len(),
    {
        self.elements.len()
    }

    /// The elements called `tag`, in document order.
    pub fn find(&self, tag: &str) -> (found: Vec<&Element>)
        ensures
            found@.map_values(|e: &Element| e@) == elements_named(self@, tag@),
    {
        let ghost named = |e: ElementView| e.tag == tag@;
        let mut found: Vec<&Element> = Vec::new();
        let mut i: usize = 0;
        proof {
            reveal(Seq::filter);
        }
        while i < self.elements.len()
            invariant
                i <= self.elements.len(),
                named == (|e: ElementView| e.tag == tag@),
                found@.map_values(|e: &Element| e@) == self@.take(i as int).filter(named),
            decreases self.elements.len() - i,
        {
            let element = &self.elements[i];
            proof {
                reveal(Seq::filter);
                assert(self@.take(i + 1).drop_last() == self@.take(i as int));
                assert(self@.take(i + 1).last() == element@);
            }
            if element.is_named(tag) {
                found.push(element);
                assert(found@.map_values(|e: &Element| e@) == self@.take(i + 1).filter(named));
            }
            i += 1;
        }
        assert(self@.take(i as int) == self@);
        found
    }

    /// Parses the text of a page.
    pub fn parse(html: &str) -> (document: Document)
        requires
            html.spec_bytes().len() <= MAX_HTML_BYTES,
        ensures
            document@ == elements_of(parsed_nodes(html@)),
    {
        let nodes = parse_nodes(html);
        Document::from_nodes(nodes)
    }

    /// The page whose nodes are `nodes`: its elements, in the same order.
    pub fn from_nodes(nodes: Vec<Node>) -> (document: Document)
        ensures
            document@ == elements_of(node_views(nodes@)),
    {
        let ghost all = node_views(nodes@);
        let ghost pick = |node: NodeView| node_element(node);
        let mut elements: Vec<Element> = Vec::new();
        for node in rest: nodes.into_iter()
            invariant
                rest.seq() == nodes@,
                all == node_views(nodes@),
                pick == (|node: NodeView| node_element(node)),
                element_views(elements@) == all.take(rest.index()).filter_map(pick),
        {
            proof {
                all.lemma_filter_map_take_succ(pick, rest.index());
                assert(all[rest.index()] == node@);
            }
            match node.name {
                Some(tag) => {
                    elements.push(Element { tag, attributes: node.attributes });
                },
                None => {},
            }
        }
        assert(all.take(all.len() as int) == all);
        Document { elements }
    }
}

} // verus!
