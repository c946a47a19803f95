//! Gemtext documents: the nodes that the feed logic reads, and the two
//! operations that the `germ` crate performs on a document.

use vstd::prelude::*;
use germ::ast::Node;

verus! {

/// One line, or group of lines, of a gemtext document.
#[derive(Debug, Clone, PartialEq, Eq)]
#[allow(inconsistent_fields)]
pub enum GemtextNode {
    /// A line of text.
    Text(String),
    /// A link line: its destination and, where it has one, its display text.
    Link { to: String, text: Option<String> },
    /// A heading line: its level and its text.
    Heading { level: usize, text: String },
    /// Consecutive list items.
    List(Vec<String>),
    /// A quotation line.
    Blockquote(String),
    /// A preformatted block: its alternative text, where it has one, and
    /// its content.
    PreformattedText { alt_text: Option<String>, text: String },
    /// An empty line.
    Whitespace,
}

/// The mathematical value of a `GemtextNode`.
#[allow(inconsistent_fields)]
pub enum GemtextNodeView {
    Text(Seq<char>),
    Link { to: Seq<char>, text: Option<Seq<char>> },
    Heading { level: nat, text: Seq<char> },
    List(Seq<Seq<char>>),
    Blockquote(Seq<char>),
    PreformattedText { alt_text: Option<Seq<char>>, text: Seq<char> },
    Whitespace,
}

impl View for GemtextNode {
    type V = GemtextNodeView;

    open spec fn view(&self) -> GemtextNodeView {
        match self {
            GemtextNode::Text(text) => GemtextNodeView::Text(text@),
            GemtextNode::Link { to, text } => GemtextNodeView::Link {
                to: to@,
                text: match text {
                    Some(t) => Some(t@),
                    None => None,
                },
            },
            GemtextNode::Heading { level, text } => GemtextNodeView::Heading {
                level: *level as nat,
                text: text@,
            },
            GemtextNode::List(items) => GemtextNodeView::List(items@.map_values(|i: String| i@)),
            GemtextNode::Blockquote(text) => GemtextNodeView::Blockquote(text@),
            GemtextNode::PreformattedText { alt_text, text } => GemtextNodeView::PreformattedText {
                alt_text: match alt_text {
                    Some(t) => Some(t@),
                    None => None,
                },
                text: text@,
            },
            GemtextNode::Whitespace => GemtextNodeView::Whitespace,
        }
    }
}

/// The values of a list of nodes.
pub open spec fn nodes_view(nodes: Seq<GemtextNode>) -> Seq<GemtextNodeView> {
    nodes.map_values(|n: GemtextNode| n@)
}

/// The nodes that `germ` reads from the gemtext document `source`.
pub uninterp spec fn gemtext_nodes(source: Seq<char>) -> Seq<GemtextNodeView>;

/// The Markdown text that `germ` writes for the gemtext document `source`.
pub uninterp spec fn gemtext_markdown(source: Seq<char>) -> Seq<char>;

/// Calls `germ::ast::Ast::from_string` and hands out the nodes of the
/// document, each kind field by field.  Trusted: the result is the one
/// that `gemtext_nodes` names, a function of the text alone.
#[verifier::external_body]
pub(crate) fn parse_gemtext(source: &str) -> (nodes: Vec<GemtextNode>)
    ensures
        nodes_view(nodes@) == gemtext_nodes(source@),
{
    germ::ast::Ast::from_string(source).inner().iter().map(|node| match node {
        Node::Text(text) => GemtextNode::Text(text.clone()),
        Node::Link { to, text } => GemtextNode::Link { to: to.clone(), text: text.clone() },
        Node::Heading { level, text } => GemtextNode::Heading { level: *level, text: text.clone() },
        Node::List(items) => GemtextNode::List(items.clone()),
        Node::Blockquote(text) => GemtextNode::Blockquote(text.clone()),
        Node::PreformattedText { alt_text, text } => GemtextNode::PreformattedText { alt_text: alt_text.clone(), text: text.clone() },
        Node::Whitespace => GemtextNode::Whitespace,
    }).collect()
}

/// Calls `germ::convert::from_string` with the Markdown target.  Trusted:
/// the result is the one that `gemtext_markdown` names, a function of the
/// text alone.
#[verifier::external_body]
pub(crate) fn to_markdown(source: &str) -> (markdown: String)
    ensures
        markdown@ == gemtext_markdown(source@),
{
    germ::convert::from_string(source, &germ::convert::Target::Markdown)
}

} // verus!
