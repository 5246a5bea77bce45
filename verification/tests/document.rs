use site_stack::document::{Attribute, Document, Element, Node, MAX_HTML_BYTES};

#[test]
fn parse_lists_elements_in_document_order() {
    let document = Document::parse("<html><head><meta name=\"generator\" content=\"Hugo\"></head><body><div id=\"a\">text</div><!-- c --><script src=\"x.js\"></script></body></html>");
    let tags: Vec<&str> = document.elements.iter().map(|e| e.tag.as_str()).collect();
    assert_eq!(tags, vec!["html", "head", "meta", "body", "div", "script"]);
    let meta = &document.elements[2];
    assert_eq!(meta.attr("name"), Some("generator"));
    assert_eq!(meta.attr("content"), Some("Hugo"));
    assert_eq!(meta.attr("id"), None);
}

#[test]
fn attr_gives_the_first_of_two_equal_names() {
    let element = Element::new(
        "div",
        vec![Attribute::new("id", "first"), Attribute::new("id", "second")],
    );
    assert_eq!(element.attr("id"), Some("first"));
    assert!(element.is_named("div"));
    assert!(!element.is_named("di"));
}

#[test]
fn from_nodes_keeps_the_elements_in_order() {
    let nodes = vec![
        Node { name: Some("html".to_string()), attributes: Vec::new() },
        Node { name: None, attributes: Vec::new() },
        Node { name: Some("div".to_string()), attributes: vec![Attribute::new("id", "a")] },
        Node { name: None, attributes: vec![Attribute::new("id", "ignored")] },
        Node { name: Some("div".to_string()), attributes: vec![Attribute::new("id", "b")] },
    ];
    let document = Document::from_nodes(nodes);
    assert_eq!(document.len(), 3);
    assert_eq!(document.elements[0].tag, "html");
    assert_eq!(document.elements[1].attr("id"), Some("a"));
    assert_eq!(document.elements[2].attr("id"), Some("b"));
    assert_eq!(Document::from_nodes(Vec::new()).len(), 0);
}

#[test]
fn find_gives_the_elements_of_one_name() {
    let document = Document::parse("<div id=a><p><div id=b></div></p></div><span></span><div id=c></div>");
    let ids: Vec<Option<&str>> = document.find("div").iter().map(|e| e.attr("id")).collect();
    assert_eq!(ids, vec![Some("a"), Some("b"), Some("c")]);
    assert_eq!(document.find("span").len(), 1);
    assert!(document.find("script").is_empty());
    assert!(document.find("").is_empty());
}

#[test]
fn parse_reads_names_and_values_as_the_parser_gives_them() {
    let document = Document::parse("<META NAME='Generator' CONTENT='Hugo &amp; co'><script SRC=a.js async></script>");
    let meta = &document.find("meta")[0];
    assert_eq!(meta.attr("name"), Some("Generator"));
    assert_eq!(meta.attr("content"), Some("Hugo & co"));
    assert_eq!(meta.attr("NAME"), None);
    let script = &document.find("script")[0];
    assert_eq!(script.attr("src"), Some("a.js"));
    assert_eq!(script.attr("async"), Some(""));
}

#[test]
fn parse_keeps_the_first_of_a_repeated_attribute() {
    let document = Document::parse("<div id=first id=second></div>");
    assert_eq!(document.find("div")[0].attr("id"), Some("first"));
}

#[test]
fn parse_of_text_without_markup_gives_the_page_frame() {
    let document = Document::parse("just text");
    let tags: Vec<&str> = document.elements.iter().map(|e| e.tag.as_str()).collect();
    assert_eq!(tags, vec!["html", "head", "body"]);
    assert!(MAX_HTML_BYTES >= 1 << 29);
}
