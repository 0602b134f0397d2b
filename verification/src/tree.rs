//! The document tree that the policies walk, and its mathematical model.

use vstd::prelude::*;

verus! {

/// One attribute of an element, as written in the source.
#[derive(Debug, PartialEq, Eq)]
pub struct Attribute {
    pub name: String,
    pub value: String,
}

/// A node of a parsed document. Each node owns its children.
#[derive(Debug, PartialEq, Eq)]
pub enum HtmlNode {
    /// The root of a document.
    Document { children: Vec<HtmlNode> },
    /// An element with its tag name, its attributes in source order and its children.
    Element { name: String, attrs: Vec<Attribute>, children: Vec<HtmlNode> },
    /// Character content.
    Text { contents: String },
    /// A comment, a doctype or a processing instruction.
    Other,
}

/// The model of an attribute: its name and its value.
pub type AttrModel = (Seq<char>, Seq<char>);

/// The model of a node: the same tree over sequences.
pub enum Tree {
    Document { children: Seq<Tree> },
    Element { name: Seq<char>, attrs: Seq<AttrModel>, children: Seq<Tree> },
    Text { contents: Seq<char> },
    Other,
}

impl View for Attribute {
    type V = AttrModel;

    open spec fn view(&self) -> AttrModel {
        (self.name@, self.value@)
    }
}

/// The models of a list of attributes, in order.
pub open spec fn attr_models(attrs: Seq<Attribute>) -> Seq<AttrModel> {
    Seq::new(attrs.len(), |i: int| attrs[i]@)
}

/// The models of a list of nodes, in order.
pub open spec fn tree_models(nodes: Seq<HtmlNode>) -> Seq<Tree>
    decreases nodes,
{
    Seq::new(
        nodes.len(),
        |i: int|
            if 0 <= i < nodes.len() {
                node_model(nodes[i])
            } else {
                Tree::Other
            },
    )
}

/// The model of one node.
pub open spec fn node_model(node: HtmlNode) -> Tree
    decreases node,
{
    match node {
        HtmlNode::Document { children } => Tree::Document { children: tree_models(children@) },
        HtmlNode::Element { name, attrs, children } => Tree::Element {
            name: name@,
            attrs: attr_models(attrs@),
            children: tree_models(children@),
        },
        HtmlNode::Text { contents } => Tree::Text { contents: contents@ },
        HtmlNode::Other => Tree::Other,
    }
}

impl View for HtmlNode {
    type V = Tree;

    open spec fn view(&self) -> Tree {
        node_model(*self)
    }
}

} // verus!
