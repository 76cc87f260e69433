//! The tree of an XML document: elements with their attributes, text and
//! comments. The text of a document is turned into such a tree by the `minidom`
//! crate.

use crate::text::same_text;
use vstd::prelude::*;

verus! {

/// One attribute of an element.
#[derive(Debug)]
pub struct XmlAttr {
    pub name: String,
    pub value: String,
}

/// The contents of an [`XmlAttr`].
pub struct XmlAttrView {
    pub name: Seq<char>,
    pub value: Seq<char>,
}

impl View for XmlAttr {
    type V = XmlAttrView;

    open spec fn view(&self) -> XmlAttrView {
        XmlAttrView { name: self.name@, value: self.value@ }
    }
}

/// One node below an element.
#[derive(Debug)]
pub enum XmlNode {
    Element(XmlElement),
    Text(String),
    Comment(String),
}

/// An element: its name without prefix, its attributes, and the nodes below it
/// in the order of the document.
#[derive(Debug)]
pub struct XmlElement {
    pub name: String,
    pub attrs: Vec<XmlAttr>,
    pub nodes: Vec<XmlNode>,
}

/// The contents of an [`XmlNode`].
pub enum XmlNodeView {
    Element(XmlElementView),
    Text(Seq<char>),
    Comment(Seq<char>),
}

/// The contents of an [`XmlElement`].
pub struct XmlElementView {
    pub name: Seq<char>,
    pub attrs: Seq<XmlAttrView>,
    pub nodes: Seq<XmlNodeView>,
}

/// The contents of an element.
pub open spec fn element_view(e: XmlElement) -> XmlElementView
    decreases e, 0nat,
{
    XmlElementView {
        name: e.name@,
        attrs: e.attrs@.map_values(|a: XmlAttr| a@),
        nodes: nodes_prefix_view(e.nodes@, e.nodes@.len()),
    }
}

/// The contents of a node.
pub open spec fn node_view(n: XmlNode) -> XmlNodeView
    decreases n, 0nat,
{
    match n {
        XmlNode::Element(e) => XmlNodeView::Element(element_view(e)),
        XmlNode::Text(t) => XmlNodeView::Text(t@),
        XmlNode::Comment(c) => XmlNodeView::Comment(c@),
    }
}

/// The contents of the first `n` nodes.
pub open spec fn nodes_prefix_view(nodes: Seq<XmlNode>, n: nat) -> Seq<XmlNodeView>
    decreases nodes, n,
{
    if n == 0 || n > nodes.len() {
        Seq::empty()
    } else {
        nodes_prefix_view(nodes, (n - 1) as nat).push(node_view(nodes[n - 1]))
    }
}

impl View for XmlElement {
    type V = XmlElementView;

    open spec fn view(&self) -> XmlElementView {
        element_view(*self)
    }
}

impl View for XmlNode {
    type V = XmlNodeView;

    open spec fn view(&self) -> XmlNodeView {
        node_view(*self)
    }
}

/// The view of an element holds the views of its nodes, one for one.
pub proof fn lemma_nodes_view(e: XmlElement)
    ensures
        e@.nodes.len() == e.nodes@.len(),
        forall|i: int| 0 <= i < e.nodes@.len() ==> e@.nodes[i] == (#[trigger] e.nodes@[i])@,
{
    lemma_nodes_prefix_view(e.nodes@, e.nodes@.len());
}

/// The view of the first `n` nodes holds the views of those nodes.
proof fn lemma_nodes_prefix_view(nodes: Seq<XmlNode>, n: nat)
    requires
        n <= nodes.len(),
    ensures
        nodes_prefix_view(nodes, n).len() == n,
        forall|i: int| 0 <= i < n ==> nodes_prefix_view(nodes, n)[i] == (#[trigger] nodes[i])@,
    decreases n,
{
    if n > 0 {
        lemma_nodes_prefix_view(nodes, (n - 1) as nat);
    }
}

/// The position of the first attribute of the given name at or after `from`.
pub open spec fn attr_from(attrs: Seq<XmlAttrView>, name: Seq<char>, from: int) -> Option<int>
    decreases attrs.len() - from,
{
    if from < 0 || from >= attrs.len() {
        None
    } else if attrs[from].name == name {
        Some(from)
    } else {
        attr_from(attrs, name, from + 1)
    }
}

/// The value of the first attribute of the given name.
pub open spec fn attr_value(attrs: Seq<XmlAttrView>, name: Seq<char>) -> Option<Seq<char>> {
    match attr_from(attrs, name, 0) {
        Some(i) => Some(attrs[i].value),
        None => None,
    }
}

impl XmlElement {
    /// The value of the attribute of the given name, if the element has one.
    pub fn attr(&self, name: &str) -> (r: Option<&String>)
        ensures
            match r {
                Some(value) => attr_value(self@.attrs, name@) == Some(value@),
                None => attr_value(self@.attrs, name@) is None,
            },
    {
        let ghost attrs = self@.attrs;
        let mut i: usize = 0;
        while i < self.attrs.len()
            invariant
                i <= self.attrs@.len(),
                attrs == self.attrs@.map_values(|a: XmlAttr| a@),
                attr_from(attrs, name@, 0) == attr_from(attrs, name@, i as int),
            decreases self.attrs@.len() - i,
        {
            if same_text(self.attrs[i].name.as_str(), name) {
                return Some(&self.attrs[i].value);
            }
            i += 1;
        }
        None
    }
}

/// `minidom::Element`, an element as `minidom` holds it; nothing is known of
/// what is inside.
#[verifier::external_type_specification]
#[verifier::external_body]
pub struct ExElement(minidom::Element);

/// `minidom::Error`, the error of `minidom`; nothing is known of what is
/// inside.
#[verifier::external_type_specification]
#[verifier::external_body]
pub struct ExDomError(minidom::Error);

/// The root element of the document that a text holds, as `minidom` reads it;
/// `None` where the text is no document.
pub uninterp spec fn document_root(text: Seq<char>) -> Option<XmlElementView>;

/// What an element of `minidom` holds: its name, its attributes and its nodes.
pub uninterp spec fn element_content(e: minidom::Element) -> XmlElementView;

/// `minidom::Element`'s `from_str` reads a document and returns its root
/// element, or an error where the text is no document. What it returns depends
/// on the text alone.
#[verifier::external_body]
fn parse_document(text: &str) -> (r: Result<minidom::Element, minidom::Error>)
    ensures
        match r {
            Ok(root) => document_root(text@) == Some(element_content(root)),
            Err(_) => document_root(text@) is None,
        },
{
    text.parse::<minidom::Element>()
}

/// Copies what an element of `minidom` holds: `name()`, the attributes that
/// `attrs()` walks, and the nodes that `nodes()` walks, each node with what
/// it holds in turn.
#[verifier::external_body]
fn element_tree(e: &minidom::Element) -> (r: XmlElement)
    ensures
        r@ == element_content(*e),
{
    XmlElement {
        name: e.name().to_string(),
        attrs: e.attrs()
            .map(|(k, v)| XmlAttr { name: k.to_string(), value: v.to_string() }).collect(),
        nodes: e.nodes().map(|n| match n {
            minidom::Node::Element(c) => XmlNode::Element(element_tree(c)),
            minidom::Node::Text(t) => XmlNode::Text(t.clone()),
            minidom::Node::Comment(c) => XmlNode::Comment(c.clone()),
        }).collect(),
    }
}

/// Reads the text of an XML document. Returns the tree of its root element, or
/// `None` where the text is no document.
pub fn parse_xml(text: &str) -> (r: Option<XmlElement>)
    ensures
        match r {
            Some(root) => document_root(text@) == Some(root@),
            None => document_root(text@) is None,
        },
{
    match parse_document(text) {
        Ok(root) => Some(element_tree(&root)),
        Err(_) => None,
    }
}

} // verus!
