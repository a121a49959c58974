use vstd::prelude::*;

use crate::parser::attributes::HtmlAttribute;

verus! {

/// How an element's content is to be read, after the kinds of elements of the HTML standard.
#[derive(Clone, Copy, PartialEq, Eq, Structural, Debug)]
pub enum ElementKind {
    Void,
    Template,
    RawText,
    EscapableRawText,
    Foreign,
    Normal,
}

/// A node of the template tree.
pub enum Node {
    ElementNode(ElementNode),
    TextNode(String),
    DynamicExpression { value: String, template_scope: u32 },
    CommentNode(String),
}

pub struct ElementNode {
    pub starting_tag: StartingTag,
    pub children: Vec<Node>,
    pub template_scope: u32,
}

pub struct StartingTag {
    pub tag_name: String,
    pub attributes: Vec<HtmlAttribute>,
    pub is_self_closing: bool,
    pub kind: ElementKind,
}

} // verus!
