//! Removing the whitespace text between and around the children of an element,
//! and putting the named slots of a component first.
use vstd::prelude::*;

use crate::compiler::codegen_elements::is_from_default_slot_node;
use crate::compiler::gen_spec::is_from_default_slot;
use crate::parser::structs::Node;
use crate::templates::ast_optimizer::{is_whitespace_text, spec_is_whitespace_text};

verus! {

pub open spec fn is_element_or_comment(n: Node) -> bool {
    n is ElementNode || n is CommentNode
}

/// Whether the `i`-th child is dropped: whitespace text first, last, or between
/// two elements or comments.
pub open spec fn discarded(c: Seq<Node>, i: int) -> bool {
    ||| i == 0 && spec_is_whitespace_text(c[0])
    ||| i == c.len() - 1 && spec_is_whitespace_text(c[i])
    ||| 0 < i < c.len() - 1 && is_element_or_comment(c[i - 1]) && spec_is_whitespace_text(c[i])
        && is_element_or_comment(c[i + 1])
}

/// The kept children among the first `k`, in order.
pub open spec fn kept_upto(c: Seq<Node>, k: int) -> Seq<Node>
    decreases k,
{
    if k <= 0 || k > c.len() {
        Seq::empty()
    } else {
        kept_upto(c, k - 1) + if discarded(c, k - 1) {
            Seq::empty()
        } else {
            seq![c[k - 1]]
        }
    }
}

/// The children of `s` that are (`default`) or are not in the default slot, in order.
pub open spec fn slot_children(s: Seq<Node>, default: bool) -> Seq<Node>
    decreases s.len(),
{
    if s.len() == 0 {
        Seq::empty()
    } else {
        slot_children(s.drop_last(), default) + if is_from_default_slot(s.last()) == default {
            seq![s.last()]
        } else {
            Seq::empty()
        }
    }
}

/// The children once the whitespace is removed; for a component, the named slots
/// come first, each group in its order.
pub open spec fn spec_transform_whitespace(c: Seq<Node>, is_component: bool) -> Seq<Node> {
    let kept = kept_upto(c, c.len() as int);
    if is_component {
        slot_children(kept, false) + slot_children(kept, true)
    } else {
        kept
    }
}

/// Whether the `i`-th child is dropped.
fn is_discarded(c: &Vec<Node>, i: usize) -> (r: bool)
    requires
        i < c.len(),
    ensures
        r == discarded(c@, i as int),
{
    let n = c.len();
    let is_edge_ws = (i == 0 || i == n - 1) && is_whitespace_text(&c[i]);
    if is_edge_ws {
        return true;
    }
    if 0 < i && i < n - 1 {
        let before = match &c[i - 1] {
            Node::ElementNode(_) | Node::CommentNode(_) => true,
            _ => false,
        };
        let after = match &c[i + 1] {
            Node::ElementNode(_) | Node::CommentNode(_) => true,
            _ => false,
        };
        before && is_whitespace_text(&c[i]) && after
    } else {
        false
    }
}

/// Removes the whitespace text at the edges of the children and between two
/// elements or comments; for a component, puts the named slots first.
/// Takes at most 128 children: the children to drop are marked in a set of 128 bits,
/// one per child (held here as one `bool` per child).
pub fn transform_whitespace(children: &mut Vec<Node>, is_component: bool)
    requires
        old(children)@.len() <= 128,
    ensures
        final(children)@ == spec_transform_whitespace(old(children)@, is_component),
{
    let ghost c = children@;
    let mut flags: Vec<bool> = Vec::new();
    let mut i: usize = 0;
    while i < children.len()
        invariant
            children@ == c,
            i <= c.len(),
            flags@.len() == i,
            forall|j: int| 0 <= j < i ==> flags@[j] == discarded(c, j),
        decreases c.len() - i,
    {
        flags.push(is_discarded(children, i));
        i = i + 1;
    }

    let mut old_children: Vec<Node> = Vec::new();
    std::mem::swap(children, &mut old_children);
    let mut kept: Vec<Node> = Vec::new();
    let mut i: usize = 0;
    while i < flags.len()
        invariant
            flags@.len() == c.len(),
            forall|j: int| 0 <= j < c.len() ==> flags@[j] == discarded(c, j),
            i <= c.len(),
            old_children@ == c.skip(i as int),
            kept@ == kept_upto(c, i as int),
        decreases c.len() - i,
    {
        let node = old_children.remove(0);
        if !flags[i] {
            kept.push(node);
        }
        assert(old_children@ =~= c.skip(i + 1));
        i = i + 1;
    }

    if !is_component {
        *children = kept;
        return;
    }

    // For components, reorder children so that named slots come first
    let ghost k = kept@;
    let mut named: Vec<Node> = Vec::new();
    let mut default: Vec<Node> = Vec::new();
    let mut i: usize = 0;
    let n = kept.len();
    while i < n
        invariant
            n == k.len(),
            i <= n,
            kept@ == k.skip(i as int),
            named@ == slot_children(k.take(i as int), false),
            default@ == slot_children(k.take(i as int), true),
        decreases n - i,
    {
        assert(k.take(i + 1).drop_last() =~= k.take(i as int));
        let node = kept.remove(0);
        if is_from_default_slot_node(&node) {
            default.push(node);
        } else {
            named.push(node);
        }
        assert(kept@ =~= k.skip(i + 1));
        i = i + 1;
    }
    assert(k.take(n as int) =~= k);
    named.append(&mut default);
    *children = named;
}

} // verus!
