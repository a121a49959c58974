//! Removes the whitespace text at the edges of element children.
use vstd::prelude::*;

use crate::parser::structs::{ElementNode, Node};
use crate::text::chars_of;

verus! {

/// The characters of the Unicode `White_Space` property (what `char::is_whitespace` accepts).
pub open spec fn spec_is_whitespace(c: char) -> bool {
    let u = c as u32;
    (0x9 <= u && u <= 0xD) || u == 0x20 || u == 0x85 || u == 0xA0 || u == 0x1680 || (0x2000 <= u
        && u <= 0x200A) || u == 0x2028 || u == 0x2029 || u == 0x202F || u == 0x205F || u == 0x3000
}

/// Whether a text is empty once trimmed: every character is whitespace.
pub open spec fn spec_is_blank(s: Seq<char>) -> bool {
    forall|k: int| 0 <= k < s.len() ==> spec_is_whitespace(#[trigger] s[k])
}

pub open spec fn spec_is_whitespace_text(n: Node) -> bool {
    n matches Node::TextNode(v) && spec_is_blank(v@)
}

/// Where the kept children start: a whitespace text first child is dropped
/// (when there are at least two children).
pub open spec fn trim_lo(c: Seq<Node>) -> int {
    if c.len() >= 2 && spec_is_whitespace_text(c[0]) {
        1
    } else {
        0
    }
}

/// Where the kept children end: a whitespace text last child is dropped, and
/// then the new last child too if it is whitespace text.
pub open spec fn trim_hi(c: Seq<Node>) -> int {
    let n = c.len() as int;
    let hi1 = if n >= 1 && spec_is_whitespace_text(c[n - 1]) {
        n - 1
    } else {
        n
    };
    if hi1 > trim_lo(c) && spec_is_whitespace_text(c[hi1 - 1]) {
        hi1 - 1
    } else {
        hi1
    }
}

/// `new` is `old` with, in every element, the whitespace text at the edges of
/// the children removed (as `trim_lo`/`trim_hi` say), recursively.
pub open spec fn spec_optimized(old: Node, new: Node) -> bool
    decreases old,
{
    match old {
        Node::ElementNode(e) => match new {
            Node::ElementNode(f) => {
                let lo = trim_lo(e.children@);
                let hi = trim_hi(e.children@);
                &&& f.starting_tag == e.starting_tag
                &&& f.template_scope == e.template_scope
                &&& f.children@.len() == hi - lo
                &&& forall|i: int|
                    0 <= i < f.children@.len() && 0 <= lo + i < e.children@.len() ==> spec_optimized(
                        e.children@[lo + i],
                        #[trigger] f.children@[i],
                    )
            },
            _ => false,
        },
        _ => new == old,
    }
}

pub proof fn lemma_trim_bounds(c: Seq<Node>)
    ensures
        0 <= trim_lo(c) <= trim_hi(c) <= c.len(),
{
}

/// Trimming keeps the children from `trim_lo` to `trim_hi` in their order and drops
/// only whitespace text: at most one child first and at most two last.
pub proof fn lemma_trim_drops_edge_whitespace(c: Seq<Node>)
    ensures
        trim_lo(c) <= 1,
        trim_hi(c) >= c.len() - 2,
        forall|i: int| 0 <= i < trim_lo(c) ==> spec_is_whitespace_text(#[trigger] c[i]),
        forall|i: int| trim_hi(c) <= i < c.len() ==> spec_is_whitespace_text(#[trigger] c[i]),
{
}

/// Every node of the tree keeps its place after `optimize_ast`, and every element's
/// children become an order-preserving part of its children that drops only
/// whitespace text at the edges (at most one first and two last).
pub proof fn lemma_optimized_children(old: Node, new: Node)
    requires
        spec_optimized(old, new),
    ensures
        old matches Node::ElementNode(e) ==> (new matches Node::ElementNode(f) && {
            let lo = trim_lo(e.children@);
            let hi = trim_hi(e.children@);
            &&& lo <= 1 && hi >= e.children@.len() - 2
            &&& f.children@.len() == hi - lo
            &&& forall|i: int| 0 <= i < lo ==> spec_is_whitespace_text(#[trigger] e.children@[i])
            &&& forall|i: int| hi <= i < e.children@.len() ==> spec_is_whitespace_text(#[trigger] e.children@[i])
            &&& forall|i: int| 0 <= i < f.children@.len() ==> spec_optimized(e.children@[lo + i], #[trigger] f.children@[i])
        }),
        !(old is ElementNode) ==> new == old,
{
    if let Node::ElementNode(e) = old {
        lemma_trim_bounds(e.children@);
        lemma_trim_drops_edge_whitespace(e.children@);
    }
}

pub fn is_whitespace(c: char) -> (r: bool)
    ensures
        r == spec_is_whitespace(c),
{
    let u = c as u32;
    (0x9 <= u && u <= 0xD) || u == 0x20 || u == 0x85 || u == 0xA0 || u == 0x1680 || (0x2000 <= u
        && u <= 0x200A) || u == 0x2028 || u == 0x2029 || u == 0x202F || u == 0x205F || u == 0x3000
}

pub fn is_blank(s: &str) -> (r: bool)
    ensures
        r == spec_is_blank(s@),
{
    let v = chars_of(s);
    let mut k: usize = 0;
    while k < v.len()
        invariant
            v@ == s@,
            k <= v.len(),
            forall|j: int| 0 <= j < k ==> spec_is_whitespace(#[trigger] v@[j]),
        decreases v.len() - k,
    {
        if !is_whitespace(v[k]) {
            return false;
        }
        k = k + 1;
    }
    true
}

pub fn is_whitespace_text(n: &Node) -> (r: bool)
    ensures
        r == spec_is_whitespace_text(*n),
{
    match n {
        Node::TextNode(v) => is_blank(v.as_str()),
        _ => false,
    }
}

/// Trims the whitespace text at the edges of the children of every element, recursively.
pub fn optimize_ast(ast: &mut Vec<Node>)
    ensures
        final(ast)@.len() == old(ast)@.len(),
        forall|i: int| 0 <= i < old(ast)@.len() ==> spec_optimized(old(ast)@[i], #[trigger] final(ast)@[i]),
{
    let n = ast.len();
    let mut i: usize = 0;
    while i < n
        invariant
            n == old(ast)@.len(),
            ast@.len() == n,
            i <= n,
            forall|j: int| 0 <= j < i ==> spec_optimized(old(ast)@[j], #[trigger] ast@[j]),
            forall|j: int| i <= j < n ==> #[trigger] ast@[j] == old(ast)@[j],
        decreases n - i,
    {
        optimize_node(&mut ast[i]);
        i = i + 1;
    }
}

/// Optimizes one node: elements have their children trimmed and optimized.
pub fn optimize_node(node: &mut Node)
    ensures
        spec_optimized(*old(node), *final(node)),
    decreases *old(node),
{
    match node {
        Node::ElementNode(element_node) => {
            visit_element_node(element_node);
        },
        _ => {},
    }
}

/// Filters out whitespace text nodes at the beginning and end of the children,
/// then optimizes the children that are left.
fn visit_element_node(element_node: &mut ElementNode)
    ensures
        spec_optimized(Node::ElementNode(*old(element_node)), Node::ElementNode(*final(element_node))),
    decreases Node::ElementNode(*old(element_node)), 1nat,
{
    let ghost old_children = element_node.children@;
    let ghost lo = trim_lo(old_children);
    let ghost hi = trim_hi(old_children);
    proof {
        lemma_trim_bounds(old_children);
    }
    let children_len = element_node.children.len();
    if children_len >= 1 && is_whitespace_text(&element_node.children[children_len - 1]) {
        element_node.children.pop();
    }
    if children_len >= 2 && is_whitespace_text(&element_node.children[0]) {
        element_node.children.remove(0);
    }
    let len = element_node.children.len();
    if len > 0 && children_len >= 1 {
        let last = len - 1;
        if is_whitespace_text(&element_node.children[last]) {
            element_node.children.pop();
        }
    }
    assert(element_node.children@ =~= old_children.subrange(lo, hi));

    let m = element_node.children.len();
    let mut i: usize = 0;
    while i < m
        invariant
            m == hi - lo,
            0 <= lo <= hi <= old_children.len(),
            old_children == old(element_node).children@,
            element_node.children@.len() == m,
            element_node.starting_tag == old(element_node).starting_tag,
            element_node.template_scope == old(element_node).template_scope,
            i <= m,
            forall|j: int| 0 <= j < i ==> spec_optimized(old_children[lo + j], #[trigger] element_node.children@[j]),
            forall|j: int| i <= j < m ==> #[trigger] element_node.children@[j] == old_children[lo + j],
        decreases m - i,
    {
        proof {
            let e = *old(element_node);
            let k = lo + i;
            assert(decreases_to!(e.children => e.children@));
            assert(decreases_to!(e.children@ => e.children@[k]));
            assert(decreases_to!(e => e.children));
            let n = Node::ElementNode(e);
            assert(n->ElementNode_0 == e);
            assert(decreases_to!(n => n->ElementNode_0));
            assert(decreases_to!(Node::ElementNode(e) => old_children[k]));
        }
        optimize_node(&mut element_node.children[i]);
        i = i + 1;
    }
}

} // verus!
