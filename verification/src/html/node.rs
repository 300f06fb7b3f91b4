//! The document node model handed to tree construction.
//!
//! Tree construction itself is out of scope for this crate: these types are
//! the vocabulary the (external) tree builder speaks, kept here so that the
//! parser skeleton has something to produce.
use vstd::prelude::*;

verus! {

/// A name–value pair on an element or document type.
pub type Attribute = (String, String);

/// An element: a tag name and its attributes.
#[derive(Debug, PartialEq, Eq)]
pub struct Element {
    pub tag: String,
    pub attributes: Vec<Attribute>,
}

/// A document-type declaration.
#[derive(Debug, PartialEq, Eq)]
pub struct DocumentType {
    pub internal_subset: String,
    pub name: String,
    pub notations: Vec<Attribute>,
    pub public_id: String,
    pub system_id: String,
}

/// The document root marker.
#[derive(Debug, PartialEq, Eq)]
pub struct Document {}

/// A document fragment marker.
#[derive(Debug, PartialEq, Eq)]
pub struct DocumentFragment {}

/// What kind of node a [`Node`] is, with the kind's payload.
#[derive(Debug, PartialEq, Eq)]
pub enum NodeType {
    Text(String),
    Attribute(Attribute),
    Element(Element),
    CDataSection(String),
    ProcessingInstruction(String),
    Comment(String),
    Document(Document),
    DocumentType(DocumentType),
    DocumentFragment(DocumentFragment),
}

/// A node of the document tree: its kind and its child elements.
#[derive(Debug, PartialEq, Eq)]
pub struct Node {
    pub children: Vec<Element>,
    pub node_type: NodeType,
}

impl Node {
    /// Append a child element, leaving the node's kind and the existing
    /// children untouched.
    pub fn add_child(&mut self, child: Element)
        ensures
            final(self).children@ == old(self).children@.push(child),
            final(self).node_type == old(self).node_type,
    {
        self.children.push(child);
    }
}

/// A text node holding the given text, with no children.
pub fn text(contents: String) -> (n: Node)
    ensures
        n.children@ == Seq::<Element>::empty(),
        n.node_type == NodeType::Text(contents),
{
    Node { children: Vec::new(), node_type: NodeType::Text(contents) }
}

/// An element node with the given children, attributes and tag name.
pub fn element(children: Vec<Element>, attributes: Vec<Attribute>, tag: String) -> (n: Node)
    ensures
        n.children == children,
        (n.node_type matches NodeType::Element(e) && e.tag == tag && e.attributes == attributes),
{
    Node { children, node_type: NodeType::Element(Element { attributes, tag }) }
}

/// A document node with the given children.
pub fn document(children: Vec<Element>) -> (n: Node)
    ensures
        n.children == children,
        n.node_type == NodeType::Document(Document {  }),
{
    Node { children, node_type: NodeType::Document(Document {  }) }
}

} // verus!
