//! The boundary to the HTML parser.
//!
//! Parsing is html5ever's work. What the library needs from it is the tree it
//! builds, copied into [`HtmlNode`] so that the policies can be reasoned about.

use crate::tree::{Attribute, HtmlNode, Tree};
use html5ever::tendril::TendrilSink;
use html5ever::{parse_document, ParseOpts};
use markup5ever_rcdom::{Handle, NodeData, RcDom};
use vstd::prelude::*;

verus! {

/// A node of the parser's reference-counted tree.
#[verifier::external_type_specification]
#[verifier::external_body]
pub struct ExDomNode(markup5ever_rcdom::Node);

/// The document tree that html5ever builds for the text `html`, as [`parse`]
/// hands it over.
pub uninterp spec fn parsed_tree(html: Seq<char>) -> Tree;

/// Copies a node of the parser's tree, with everything below it.
///
/// Calls nothing but accessors of `markup5ever_rcdom::Node`: a document keeps
/// its children, an element its local name, its attributes (local name and
/// value, in order) and its children, a text node its contents; any other
/// kind of node becomes [`HtmlNode::Other`]. Nothing is claimed of the result.
#[verifier::external_body]
fn copy_node(handle: &Handle) -> HtmlNode {
    let children = handle.children.borrow().iter().map(copy_node).collect();
    match &handle.data {
        NodeData::Document => HtmlNode::Document { children },
        NodeData::Element { name, attrs, .. } => {
            let pair = |a: &html5ever::Attribute| Attribute {
                name: a.name.local.to_string(),
                value: a.value.to_string(),
            };
            let attrs = attrs.borrow().iter().map(pair).collect();
            HtmlNode::Element { name: name.local.to_string(), attrs, children }
        },
        NodeData::Text { contents } => HtmlNode::Text { contents: contents.borrow().to_string() },
        _ => HtmlNode::Other,
    }
}

/// Parses `html` as a whole document.
///
/// Calls `html5ever::parse_document` with a fresh `RcDom` and default options,
/// feeding it the bytes of `html`. The parser recovers from malformed markup
/// and reading from memory cannot fail, so a tree always comes back. The
/// contract gives that tree a name and claims nothing else of it.
#[verifier::external_body]
pub(crate) fn parse(html: &str) -> (node: HtmlNode)
    ensures
        node@ == parsed_tree(html@),
{
    let dom = parse_document(RcDom::default(), ParseOpts::default())
        .from_utf8()
        .read_from(&mut html.as_bytes())
        .unwrap();
    copy_node(&dom.document)
}

} // verus!
