use html_lexer::html::node::{document, element, text, Document, Element, Node, NodeType};
use html_lexer::html::parser::Parser;
use html_lexer::html::tokens::TagData;

#[test]
fn text_node() {
    let n = text("hello".to_string());
    assert!(n.children.is_empty());
    assert_eq!(n.node_type, NodeType::Text("hello".to_string()));
}

#[test]
fn element_node() {
    let child = Element { tag: "b".to_string(), attributes: vec![] };
    let n = element(
        vec![child],
        vec![("id".to_string(), "x".to_string())],
        "p".to_string(),
    );
    assert_eq!(n.children.len(), 1);
    assert_eq!(n.children[0].tag, "b");
    match n.node_type {
        NodeType::Element(e) => {
            assert_eq!(e.tag, "p");
            assert_eq!(e.attributes, vec![("id".to_string(), "x".to_string())]);
        },
        other => panic!("expected an element node, got {:?}", other),
    }
}

#[test]
fn document_node() {
    let n = document(Vec::new());
    assert!(n.children.is_empty());
    assert_eq!(n.node_type, NodeType::Document(Document {}));
}

#[test]
fn add_child_appends() {
    let mut n = document(Vec::new());
    n.add_child(Element { tag: "a".to_string(), attributes: vec![] });
    n.add_child(Element { tag: "b".to_string(), attributes: vec![] });
    assert_eq!(n.children.len(), 2);
    assert_eq!(n.children[0].tag, "a");
    assert_eq!(n.children[1].tag, "b");
    assert_eq!(n.node_type, NodeType::Document(Document {}));
}

#[test]
fn tag_data_new_is_empty() {
    let t = TagData::new();
    assert!(t.tag_name.is_empty());
    assert!(!t.self_closing);
    assert!(t.attributes.is_empty());
}

#[test]
fn parser_parse_returns_document_root() {
    let mut parser = Parser::new("<p>".to_string());
    let n: Node = parser.parse("<p>".to_string());
    assert!(n.children.is_empty());
    assert_eq!(n.node_type, NodeType::Document(Document {}));
}
