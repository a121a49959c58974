//! Folding `v-if` / `v-else-if` / `v-else` siblings into conditional sequences.
use vstd::prelude::*;

use crate::text::str_eq;
use crate::transform::utils::take_reversed;

verus! {

/// The directives that decide whether, and how often, an element is rendered.
pub struct StructuralDirectives {
    pub v_if: Option<String>,
    pub v_else_if: Option<String>,
    pub v_else: bool,
    pub v_for: Option<String>,
    pub v_slot: bool,
}

/// An element of the template, as far as conditional folding reads it.
pub struct TemplateElement {
    pub tag_name: String,
    /// The element is a `<template>`
    pub is_template: bool,
    pub directives: Option<StructuralDirectives>,
    pub children: Vec<TemplateNode>,
}

/// A node of the template tree.
pub enum TemplateNode {
    Element(TemplateElement),
    Text(String),
    Interpolation(String),
    Comment(String),
    ConditionalSeq(ConditionalSeq),
}

/// A branch of a conditional sequence: its condition and the node it renders.
pub struct Conditional {
    pub condition: String,
    pub node: TemplateNode,
}

/// `v-if`, then any number of `v-else-if`, then an optional `v-else`.
pub struct ConditionalSeq {
    pub if_node: Box<Conditional>,
    pub else_if_nodes: Vec<Conditional>,
    pub else_node: Option<Box<TemplateNode>>,
}

/// A node after folding: a node as it is, or a conditional sequence given by its
/// branches (the `v-if` first, then the `v-else-if`s) and its `v-else`.
pub enum FoldedNode {
    Plain(TemplateNode),
    Conditional { branches: Seq<(Seq<char>, TemplateNode)>, else_node: Option<TemplateNode> },
}

pub open spec fn branch_view(c: Conditional) -> (Seq<char>, TemplateNode) {
    (c.condition@, c.node)
}

pub open spec fn branches_of(s: ConditionalSeq) -> Seq<(Seq<char>, TemplateNode)> {
    seq![branch_view(*s.if_node)] + s.else_if_nodes@.map_values(|c: Conditional| branch_view(c))
}

/// How a node reads after folding.
pub open spec fn folded(n: TemplateNode) -> FoldedNode {
    match n {
        TemplateNode::ConditionalSeq(s) => FoldedNode::Conditional {
            branches: branches_of(s),
            else_node: match s.else_node {
                Some(b) => Some(*b),
                None => None,
            },
        },
        _ => FoldedNode::Plain(n),
    }
}

pub open spec fn has_v_for(e: TemplateElement) -> bool {
    e.directives matches Some(d) && d.v_for is Some
}

/// A `<template>` whose only child is an element, with at most one `v-for` between
/// the two, gives way to that child, which takes the `v-for` of the `<template>`.
pub open spec fn spec_optimize_v_if_plus_v_for(parent: TemplateElement) -> TemplateElement {
    if parent.children@.len() != 1 || parent.tag_name@ != "template"@ {
        parent
    } else {
        match parent.children@[0] {
            TemplateNode::Element(child) => if has_v_for(parent) && has_v_for(child) {
                parent
            } else if has_v_for(parent) {
                let v_for = parent.directives->0.v_for;
                TemplateElement {
                    directives: Some(
                        match child.directives {
                            Some(d) => StructuralDirectives { v_for: v_for, ..d },
                            None => StructuralDirectives {
                                v_if: None,
                                v_else_if: None,
                                v_else: false,
                                v_for: v_for,
                                v_slot: false,
                            },
                        },
                    ),
                    ..child
                }
            } else {
                child
            },
            _ => parent,
        }
    }
}

/// Whether an element carries `v-slot` on a `<template>`: such an element belongs to
/// the slots of its component, not to a conditional sequence.
pub open spec fn is_template_slot_carrier(e: TemplateElement) -> bool {
    &&& e.is_template
    &&& e.directives matches Some(d) && d.v_slot
}

fn has_v_for_exec(e: &TemplateElement) -> (r: bool)
    ensures
        r == has_v_for(*e),
{
    match &e.directives {
        Some(d) => d.v_for.is_some(),
        None => false,
    }
}

/// Optimize combined usage of conditional directives and `v-for`
pub fn optimize_v_if_plus_v_for(parent: TemplateElement) -> (r: TemplateElement)
    ensures
        r == spec_optimize_v_if_plus_v_for(parent),
{
    proof {
        reveal_strlit("template");
    }
    // Check that work is needed
    // This must be a `<template>` element with exactly one Element child
    if parent.children.len() != 1 || !str_eq(parent.tag_name.as_str(), "template") {
        return parent;
    }
    let only_element = match &parent.children[0] {
        TemplateNode::Element(child) => Some(has_v_for_exec(child)),
        _ => None,
    };
    let child_has_v_for = match only_element {
        Some(f) => f,
        None => return parent,
    };
    // There must be at most one `v-for` for both parent and child
    let parent_has_v_for = has_v_for_exec(&parent);
    if parent_has_v_for && child_has_v_for {
        return parent;
    }

    let ghost old_parent = parent;
    let TemplateElement { tag_name: _, is_template: _, directives: parent_directives, children: mut parent_children } = parent;
    let last = parent_children.pop();
    let child = match last {
        Some(TemplateNode::Element(child)) => child,
        _ => vstd::pervasive::unreached(),
    };
    assert(old_parent.children@[0] == TemplateNode::Element(child));

    // Take parent's `v-for` and give it to the child
    if parent_has_v_for {
        let v_for = match parent_directives {
            Some(d) => d.v_for,
            None => None,
        };
        let TemplateElement { tag_name, is_template, directives, children } = child;
        let new_directives = match directives {
            Some(d) => StructuralDirectives {
                v_if: d.v_if,
                v_else_if: d.v_else_if,
                v_else: d.v_else,
                v_for: v_for,
                v_slot: d.v_slot,
            },
            None => StructuralDirectives { v_if: None, v_else_if: None, v_else: false, v_for: v_for, v_slot: false },
        };
        return TemplateElement { tag_name, is_template, directives: Some(new_directives), children };
    }
    child
}

/// The part an element plays in a conditional sequence.
#[derive(Clone, Copy, PartialEq, Eq, Structural, Debug)]
pub enum ConditionalRole {
    /// A `<template v-slot>`, which is left to the slots of its component
    SlotCarrier,
    If,
    ElseIf,
    Else,
    Unconditional,
}

pub open spec fn role_of(e: TemplateElement) -> ConditionalRole {
    if is_template_slot_carrier(e) {
        ConditionalRole::SlotCarrier
    } else {
        match e.directives {
            None => ConditionalRole::Unconditional,
            Some(d) => if d.v_if is Some {
                ConditionalRole::If
            } else if d.v_else_if is Some {
                ConditionalRole::ElseIf
            } else if d.v_else {
                ConditionalRole::Else
            } else {
                ConditionalRole::Unconditional
            },
        }
    }
}

/// The element without its `v-if`.
pub open spec fn with_if_taken(e: TemplateElement) -> TemplateElement {
    TemplateElement { directives: Some(StructuralDirectives { v_if: None, ..e.directives->0 }), ..e }
}

/// The element without its `v-else-if`.
pub open spec fn with_else_if_taken(e: TemplateElement) -> TemplateElement {
    TemplateElement { directives: Some(StructuralDirectives { v_else_if: None, ..e.directives->0 }), ..e }
}

/// The branches of the sequence being built, if one is open, and the nodes written so far.
pub type FoldState = (Option<Seq<(Seq<char>, TemplateNode)>>, Seq<FoldedNode>);

/// The nodes written, with the open sequence closed.
pub open spec fn finish(open: Option<Seq<(Seq<char>, TemplateNode)>>, out: Seq<FoldedNode>) -> Seq<FoldedNode> {
    match open {
        Some(b) => out.push(FoldedNode::Conditional { branches: b, else_node: None }),
        None => out,
    }
}

/// One child more. A `v-if` opens a sequence (closing the one before), a `v-else-if`
/// joins the open sequence, and a `v-else` joins and closes it; without an open
/// sequence, a `v-else-if` or `v-else` stays where it is. A comment inside an open
/// sequence is dropped; any other node closes the sequence and stays.
pub open spec fn fold_step(st: FoldState, child: TemplateNode) -> FoldState {
    let (open, out) = st;
    match child {
        TemplateNode::Element(e) => match role_of(e) {
            ConditionalRole::If => (
                Some(seq![(e.directives->0.v_if->0@, TemplateNode::Element(spec_optimize_v_if_plus_v_for(with_if_taken(e))))]),
                finish(open, out),
            ),
            ConditionalRole::ElseIf => match open {
                Some(b) => (
                    Some(b.push((e.directives->0.v_else_if->0@, TemplateNode::Element(spec_optimize_v_if_plus_v_for(with_else_if_taken(e)))))),
                    out,
                ),
                None => (None, out.push(FoldedNode::Plain(TemplateNode::Element(with_else_if_taken(e))))),
            },
            ConditionalRole::Else => match open {
                Some(b) => (None, out.push(FoldedNode::Conditional {
                    branches: b,
                    else_node: Some(TemplateNode::Element(spec_optimize_v_if_plus_v_for(e))),
                })),
                None => (None, out.push(FoldedNode::Plain(child))),
            },
            _ => (None, finish(open, out).push(FoldedNode::Plain(child))),
        },
        TemplateNode::Comment(_) => if open is Some {
            st
        } else {
            (None, out.push(FoldedNode::Plain(child)))
        },
        _ => (None, finish(open, out).push(folded(child))),
    }
}

/// The state after the given children, taken in order.
pub open spec fn fold_state(children: Seq<TemplateNode>) -> FoldState
    decreases children.len(),
{
    if children.len() == 0 {
        (None, Seq::empty())
    } else {
        fold_step(fold_state(children.drop_last()), children.last())
    }
}

/// The children once the conditional siblings are folded.
pub open spec fn spec_transform_if(children: Seq<TemplateNode>) -> Seq<FoldedNode> {
    let (open, out) = fold_state(children);
    finish(open, out)
}

pub open spec fn folded_all(nodes: Seq<TemplateNode>) -> Seq<FoldedNode> {
    nodes.map_values(|n: TemplateNode| folded(n))
}

/// The branches of the sequence being built, which has no `v-else` yet.
pub open spec fn open_view(seq: Option<ConditionalSeq>) -> Option<Seq<(Seq<char>, TemplateNode)>> {
    match seq {
        Some(s) => Some(branches_of(s)),
        None => None,
    }
}

pub open spec fn is_open_seq(seq: Option<ConditionalSeq>) -> bool {
    seq matches Some(s) ==> s.else_node is None
}

proof fn lemma_folded_push(nodes: Seq<TemplateNode>, n: TemplateNode)
    ensures
        folded_all(nodes.push(n)) == folded_all(nodes).push(folded(n)),
{
    assert(folded_all(nodes.push(n)) =~= folded_all(nodes).push(folded(n)));
}

fn role_of_exec(e: &TemplateElement) -> (r: ConditionalRole)
    ensures
        r == role_of(*e),
{
    match &e.directives {
        None => ConditionalRole::Unconditional,
        Some(d) => if e.is_template && d.v_slot {
            ConditionalRole::SlotCarrier
        } else if d.v_if.is_some() {
            ConditionalRole::If
        } else if d.v_else_if.is_some() {
            ConditionalRole::ElseIf
        } else if d.v_else {
            ConditionalRole::Else
        } else {
            ConditionalRole::Unconditional
        },
    }
}

/// The condition of the `v-if`, and the element without it.
fn split_if(e: TemplateElement) -> (r: (String, TemplateElement))
    requires
        e.directives matches Some(d) && d.v_if is Some,
    ensures
        r.0@ == e.directives->0.v_if->0@,
        r.1 == with_if_taken(e),
{
    let TemplateElement { tag_name, is_template, directives, children } = e;
    match directives {
        Some(d) => match d.v_if {
            Some(condition) => {
                let rest = StructuralDirectives {
                    v_if: None,
                    v_else_if: d.v_else_if,
                    v_else: d.v_else,
                    v_for: d.v_for,
                    v_slot: d.v_slot,
                };
                (condition, TemplateElement { tag_name, is_template, directives: Some(rest), children })
            },
            None => vstd::pervasive::unreached(),
        },
        None => vstd::pervasive::unreached(),
    }
}

/// The condition of the `v-else-if`, and the element without it.
fn split_else_if(e: TemplateElement) -> (r: (String, TemplateElement))
    requires
        e.directives matches Some(d) && d.v_else_if is Some,
    ensures
        r.0@ == e.directives->0.v_else_if->0@,
        r.1 == with_else_if_taken(e),
{
    let TemplateElement { tag_name, is_template, directives, children } = e;
    match directives {
        Some(d) => match d.v_else_if {
            Some(condition) => {
                let rest = StructuralDirectives {
                    v_if: d.v_if,
                    v_else_if: None,
                    v_else: d.v_else,
                    v_for: d.v_for,
                    v_slot: d.v_slot,
                };
                (condition, TemplateElement { tag_name, is_template, directives: Some(rest), children })
            },
            None => vstd::pervasive::unreached(),
        },
        None => vstd::pervasive::unreached(),
    }
}

/// Writes the open sequence, if any, and leaves none open.
fn finish_seq(seq: &mut Option<ConditionalSeq>, out: &mut Vec<TemplateNode>)
    requires
        is_open_seq(*old(seq)),
    ensures
        *final(seq) is None,
        folded_all(final(out)@) == finish(open_view(*old(seq)), folded_all(old(out)@)),
{
    if let Some(s) = seq.take() {
        proof {
            lemma_folded_push(out@, TemplateNode::ConditionalSeq(s));
        }
        out.push(TemplateNode::ConditionalSeq(s));
    }
}

/// Merge multiple v-if/else-if/else nodes into a ConditionalNodeSequence
pub fn transform_if(children: &mut Vec<TemplateNode>)
    ensures
        folded_all(final(children)@) == spec_transform_if(old(children)@),
{
    let ghost orig = children@;
    let n = children.len();
    // The children, last first, so that popping gives them in order
    let mut pending = take_reversed(children);
    assert(children@ =~= Seq::<TemplateNode>::empty());

    let mut seq: Option<ConditionalSeq> = None;
    assert(orig.take(0) =~= Seq::<TemplateNode>::empty());
    assert(folded_all(children@) =~= Seq::<FoldedNode>::empty());
    while pending.len() > 0
        invariant
            pending.len() <= n,
            n == orig.len(),
            forall|j: int| 0 <= j < pending.len() ==> #[trigger] pending@[j] == orig[n - 1 - j],
            is_open_seq(seq),
            (open_view(seq), folded_all(children@)) == fold_state(orig.take(n - pending.len())),
        decreases pending.len(),
    {
        let ghost k = n - pending.len();
        let child = match pending.pop() {
            Some(c) => c,
            None => vstd::pervasive::unreached(),
        };
        assert(child == orig[k]);
        let ghost st = fold_state(orig.take(k));
        proof {
            let t = orig.take(k + 1);
            assert(t.drop_last() =~= orig.take(k));
            assert(t.last() == child);
        }
        let ghost out0 = children@;
        match child {
            TemplateNode::Element(e) => {
                let role = role_of_exec(&e);
                match role {
                    ConditionalRole::If => {
                        finish_seq(&mut seq, children);
                        let (condition, rest) = split_if(e);
                        let node = TemplateNode::Element(optimize_v_if_plus_v_for(rest));
                        seq = Some(ConditionalSeq {
                            if_node: Box::new(Conditional { condition, node }),
                            else_if_nodes: Vec::new(),
                            else_node: None,
                        });
                        proof {
                            let s = seq->0;
                            assert(branches_of(s) =~= seq![branch_view(*s.if_node)]);
                        }
                    },
                    ConditionalRole::ElseIf => {
                        let (condition, rest) = split_else_if(e);
                        match seq.take() {
                            Some(mut s) => {
                                let ghost b0 = branches_of(s);
                                let c = Conditional { condition, node: TemplateNode::Element(optimize_v_if_plus_v_for(rest)) };
                                let ghost bv = branch_view(c);
                                let ghost nodes0 = s.else_if_nodes@;
                                s.else_if_nodes.push(c);
                                proof {
                                    assert(s.else_if_nodes@.map_values(|c: Conditional| branch_view(c)) =~= nodes0.map_values(
                                        |c: Conditional| branch_view(c),
                                    ).push(bv));
                                    assert(branches_of(s) =~= b0.push(bv));
                                }
                                seq = Some(s);
                            },
                            None => {
                                proof {
                                    lemma_folded_push(children@, TemplateNode::Element(rest));
                                }
                                children.push(TemplateNode::Element(rest));
                            },
                        }
                    },
                    ConditionalRole::Else => {
                        match seq.take() {
                            Some(mut s) => {
                                s.else_node = Some(Box::new(TemplateNode::Element(optimize_v_if_plus_v_for(e))));
                                proof {
                                    lemma_folded_push(children@, TemplateNode::ConditionalSeq(s));
                                }
                                children.push(TemplateNode::ConditionalSeq(s));
                            },
                            None => {
                                proof {
                                    lemma_folded_push(children@, TemplateNode::Element(e));
                                }
                                children.push(TemplateNode::Element(e));
                            },
                        }
                    },
                    _ => {
                        finish_seq(&mut seq, children);
                        proof {
                            lemma_folded_push(children@, TemplateNode::Element(e));
                        }
                        children.push(TemplateNode::Element(e));
                    },
                }
            },
            TemplateNode::Comment(text) => {
                // Comments inside a sequence are dropped
                if seq.is_none() {
                    proof {
                        lemma_folded_push(children@, TemplateNode::Comment(text));
                    }
                    children.push(TemplateNode::Comment(text));
                }
            },
            other => {
                finish_seq(&mut seq, children);
                proof {
                    lemma_folded_push(children@, other);
                }
                children.push(other);
            },
        }
    }
    finish_seq(&mut seq, children);
    assert(orig.take(n as int) =~= orig);
}

/// Whether the node is an element with `v-if`, `v-else-if` or `v-else`.
pub open spec fn is_conditional(n: TemplateNode) -> bool {
    n matches TemplateNode::Element(e) && (role_of(e) == ConditionalRole::If || role_of(e)
        == ConditionalRole::ElseIf || role_of(e) == ConditionalRole::Else)
}

/// How many of the children a folded node stands for: one, or one per branch and
/// one for the `v-else`.
pub open spec fn entries(f: FoldedNode) -> nat {
    match f {
        FoldedNode::Plain(_) => 1,
        FoldedNode::Conditional { branches, else_node } => branches.len() + if else_node is Some {
            1nat
        } else {
            0nat
        },
    }
}

pub open spec fn total_entries(s: Seq<FoldedNode>) -> nat
    decreases s.len(),
{
    if s.len() == 0 {
        0
    } else {
        total_entries(s.drop_last()) + entries(s.last())
    }
}

pub open spec fn open_len(open: Option<Seq<(Seq<char>, TemplateNode)>>) -> nat {
    match open {
        Some(b) => b.len(),
        None => 0,
    }
}

pub open spec fn is_comment(n: TemplateNode) -> bool {
    n is Comment
}

proof fn lemma_total_push(s: Seq<FoldedNode>, f: FoldedNode)
    ensures
        total_entries(s.push(f)) == total_entries(s) + entries(f),
{
    assert(s.push(f).drop_last() =~= s);
}

/// Children without `v-if`, `v-else-if` or `v-else` come out as they went in.
pub proof fn lemma_unconditional_children_unchanged(children: Seq<TemplateNode>)
    requires
        forall|i: int| 0 <= i < children.len() ==> !is_conditional(#[trigger] children[i]),
    ensures
        spec_transform_if(children) == folded_all(children),
{
    lemma_unconditional_state(children);
}

proof fn lemma_unconditional_state(children: Seq<TemplateNode>)
    requires
        forall|i: int| 0 <= i < children.len() ==> !is_conditional(#[trigger] children[i]),
    ensures
        fold_state(children) == (Option::<Seq<(Seq<char>, TemplateNode)>>::None, folded_all(children)),
    decreases children.len(),
{
    if children.len() > 0 {
        let init = children.drop_last();
        assert forall|i: int| 0 <= i < init.len() implies !is_conditional(#[trigger] init[i]) by {
            assert(init[i] == children[i]);
        }
        lemma_unconditional_state(init);
        assert(!is_conditional(children[children.len() - 1]));
        lemma_folded_push(init, children.last());
        assert(init.push(children.last()) =~= children);
    }
}

/// Every child is found again after folding, as a node of its own or as a branch
/// or `v-else` of a conditional sequence, but for the comments inside a sequence,
/// which are dropped (a sequence among the children counts once per branch).
pub proof fn lemma_children_accounted(children: Seq<TemplateNode>)
    ensures
        total_entries(spec_transform_if(children)) <= total_entries(folded_all(children)),
        (forall|i: int| 0 <= i < children.len() ==> !is_comment(#[trigger] children[i]))
            ==> total_entries(spec_transform_if(children)) == total_entries(folded_all(children)),
{
    lemma_state_accounted(children);
    let (open, out) = fold_state(children);
    if let Some(b) = open {
        lemma_total_push(out, FoldedNode::Conditional { branches: b, else_node: None });
    }
}

proof fn lemma_state_accounted(children: Seq<TemplateNode>)
    ensures
        total_entries(fold_state(children).1) + open_len(fold_state(children).0) <= total_entries(folded_all(children)),
        (forall|i: int| 0 <= i < children.len() ==> !is_comment(#[trigger] children[i]))
            ==> total_entries(fold_state(children).1) + open_len(fold_state(children).0) == total_entries(
            folded_all(children),
        ),
        fold_state(children).0 matches Some(b) ==> b.len() > 0,
    decreases children.len(),
{
    if children.len() > 0 {
        let init = children.drop_last();
        let child = children.last();
        lemma_state_accounted(init);
        lemma_folded_push(init, child);
        lemma_total_push(folded_all(init), folded(child));
        assert(init.push(child) =~= children);
        if forall|i: int| 0 <= i < children.len() ==> !is_comment(#[trigger] children[i]) {
            assert forall|i: int| 0 <= i < init.len() implies !is_comment(#[trigger] init[i]) by {
                assert(init[i] == children[i]);
            }
            assert(!is_comment(children[children.len() - 1]));
        }
        let (open, out) = fold_state(init);
        let fin = finish(open, out);
        if let Some(b) = open {
            lemma_total_push(out, FoldedNode::Conditional { branches: b, else_node: None });
        }
        assert(total_entries(fin) == total_entries(out) + open_len(open));
        match child {
            TemplateNode::Element(e) => {
                lemma_total_push(fin, FoldedNode::Plain(child));
                lemma_total_push(out, FoldedNode::Plain(child));
                lemma_total_push(out, FoldedNode::Plain(TemplateNode::Element(with_else_if_taken(e))));
                if let Some(b) = open {
                    lemma_total_push(out, FoldedNode::Conditional {
                        branches: b,
                        else_node: Some(TemplateNode::Element(spec_optimize_v_if_plus_v_for(e))),
                    });
                }
            },
            TemplateNode::Comment(_) => {
                lemma_total_push(out, FoldedNode::Plain(child));
            },
            _ => {
                lemma_total_push(fin, folded(child));
            },
        }
    }
}

/// The role of a node that is an element, `Unconditional` for any other node.
pub open spec fn node_role(n: TemplateNode) -> ConditionalRole {
    match n {
        TemplateNode::Element(e) => role_of(e),
        _ => ConditionalRole::Unconditional,
    }
}

/// The branch that a `v-if` or `v-else-if` element gives: its condition, and the
/// element without it (a `<template>` around a single element gives way to it).
pub open spec fn branch_of(n: TemplateNode) -> (Seq<char>, TemplateNode) {
    match n {
        TemplateNode::Element(e) => if role_of(e) == ConditionalRole::If {
            (e.directives->0.v_if->0@, TemplateNode::Element(spec_optimize_v_if_plus_v_for(with_if_taken(e))))
        } else {
            (e.directives->0.v_else_if->0@, TemplateNode::Element(spec_optimize_v_if_plus_v_for(with_else_if_taken(e))))
        },
        _ => (Seq::empty(), n),
    }
}

/// A `v-if` element and then `v-else-if` elements.
pub open spec fn is_open_run(c: Seq<TemplateNode>) -> bool {
    &&& c.len() >= 1
    &&& node_role(c[0]) == ConditionalRole::If
    &&& forall|k: int| 1 <= k < c.len() ==> node_role(#[trigger] c[k]) == ConditionalRole::ElseIf
}

proof fn lemma_open_run_state(c: Seq<TemplateNode>)
    requires
        is_open_run(c),
    ensures
        fold_state(c) == (Some(c.map_values(|n: TemplateNode| branch_of(n))), Seq::<FoldedNode>::empty()),
    decreases c.len(),
{
    let init = c.drop_last();
    assert(fold_state(c) == fold_step(fold_state(init), c.last()));
    if c.len() == 1 {
        assert(init =~= Seq::<TemplateNode>::empty());
        assert(fold_state(init) == (Option::<Seq<(Seq<char>, TemplateNode)>>::None, Seq::<FoldedNode>::empty()));
        assert(c.last() == c[0]);
        assert(c.map_values(|n: TemplateNode| branch_of(n)) =~= seq![branch_of(c[0])]);
    } else {
        assert forall|k: int| 1 <= k < init.len() implies node_role(#[trigger] init[k]) == ConditionalRole::ElseIf by {
            assert(init[k] == c[k]);
        }
        lemma_open_run_state(init);
        assert(node_role(c[c.len() - 1]) == ConditionalRole::ElseIf);
        assert(c.map_values(|n: TemplateNode| branch_of(n)) =~= init.map_values(|n: TemplateNode| branch_of(n)).push(
            branch_of(c.last()),
        ));
    }
}

/// A `v-if` element followed by `v-else-if` elements folds into one conditional
/// sequence that holds their conditions and elements in order, without `v-else`.
pub proof fn lemma_if_chain_folds(children: Seq<TemplateNode>)
    requires
        is_open_run(children),
    ensures
        spec_transform_if(children) == seq![
            FoldedNode::Conditional {
                branches: children.map_values(|n: TemplateNode| branch_of(n)),
                else_node: None,
            },
        ],
{
    lemma_open_run_state(children);
    assert(Seq::<FoldedNode>::empty().push(FoldedNode::Conditional {
        branches: children.map_values(|n: TemplateNode| branch_of(n)),
        else_node: None,
    }) =~= seq![
        FoldedNode::Conditional { branches: children.map_values(|n: TemplateNode| branch_of(n)), else_node: None },
    ]);
}

/// A `v-if` element followed by `v-else-if` elements and a `v-else` element folds
/// into one conditional sequence that holds their conditions and elements in order,
/// the `v-else` element last.
pub proof fn lemma_if_else_chain_folds(children: Seq<TemplateNode>)
    requires
        children.len() >= 2,
        is_open_run(children.drop_last()),
        node_role(children.last()) == ConditionalRole::Else,
    ensures
        spec_transform_if(children) == seq![
            FoldedNode::Conditional {
                branches: children.drop_last().map_values(|n: TemplateNode| branch_of(n)),
                else_node: Some(TemplateNode::Element(spec_optimize_v_if_plus_v_for(children.last()->Element_0))),
            },
        ],
{
    lemma_open_run_state(children.drop_last());
    let f = FoldedNode::Conditional {
        branches: children.drop_last().map_values(|n: TemplateNode| branch_of(n)),
        else_node: Some(TemplateNode::Element(spec_optimize_v_if_plus_v_for(children.last()->Element_0))),
    };
    assert(Seq::<FoldedNode>::empty().push(f) =~= seq![f]);
}

/// Whether `n` starts afresh: a node that is no `v-else-if`, no `v-else` and no
/// comment closes whatever sequence is open before it.
pub open spec fn starts_afresh(n: TemplateNode) -> bool {
    node_role(n) != ConditionalRole::ElseIf && node_role(n) != ConditionalRole::Else && !is_comment(n)
}

/// The state after `c`, taken in order from the state `st`.
pub open spec fn fold_from(st: FoldState, c: Seq<TemplateNode>) -> FoldState
    decreases c.len(),
{
    if c.len() == 0 {
        st
    } else {
        fold_from(fold_step(st, c[0]), c.skip(1))
    }
}

proof fn lemma_fold_state_concat(a: Seq<TemplateNode>, c: Seq<TemplateNode>)
    ensures
        fold_state(a + c) == fold_from(fold_state(a), c),
    decreases c.len(),
{
    if c.len() == 0 {
        assert(a + c =~= a);
    } else {
        let a2 = a.push(c[0]);
        assert(a + c =~= a2 + c.skip(1));
        assert(a2.drop_last() =~= a);
        assert(fold_state(a2) == fold_step(fold_state(a), c[0]));
        lemma_fold_state_concat(a2, c.skip(1));
    }
}

proof fn lemma_step_prefix(o: Option<Seq<(Seq<char>, TemplateNode)>>, p: Seq<FoldedNode>, q: Seq<FoldedNode>, x: TemplateNode)
    ensures
        fold_step((o, p + q), x) == (fold_step((o, q), x).0, p + fold_step((o, q), x).1),
{
    assert forall|f: FoldedNode| (p + q).push(f) =~= p + q.push(f) by {}
    assert(finish(o, p + q) =~= p + finish(o, q));
    assert forall|f: FoldedNode| finish(o, p + q).push(f) =~= p + finish(o, q).push(f) by {}
}

proof fn lemma_from_prefix(o: Option<Seq<(Seq<char>, TemplateNode)>>, p: Seq<FoldedNode>, q: Seq<FoldedNode>, c: Seq<TemplateNode>)
    ensures
        fold_from((o, p + q), c) == (fold_from((o, q), c).0, p + fold_from((o, q), c).1),
    decreases c.len(),
{
    if c.len() > 0 {
        lemma_step_prefix(o, p, q, c[0]);
        let st = fold_step((o, q), c[0]);
        lemma_from_prefix(st.0, p, st.1, c.skip(1));
    }
}

/// Folding is done piece by piece: where the second part starts afresh, the
/// children of both parts fold as each part does on its own, one after the other.
pub proof fn lemma_transform_if_concat(a: Seq<TemplateNode>, b: Seq<TemplateNode>)
    requires
        b.len() > 0,
        starts_afresh(b[0]),
    ensures
        spec_transform_if(a + b) == spec_transform_if(a) + spec_transform_if(b),
{
    lemma_fold_state_concat(a, b);
    lemma_fold_state_concat(Seq::empty(), b);
    assert(Seq::<TemplateNode>::empty() + b =~= b);
    let (oa, outa) = fold_state(a);
    let ta = finish(oa, outa);
    let empty_state: FoldState = (None, Seq::empty());
    assert(fold_state(Seq::<TemplateNode>::empty()) == empty_state);
    let s1 = fold_step(empty_state, b[0]);
    assert(fold_step((oa, outa), b[0]) == (s1.0, ta + s1.1)) by {
        assert(ta + Seq::<FoldedNode>::empty() =~= ta);
        assert forall|f: FoldedNode| ta.push(f) =~= ta + Seq::<FoldedNode>::empty().push(f) by {}
    }
    lemma_from_prefix(s1.0, ta, s1.1, b.skip(1));
    let (ob, outb) = fold_state(b);
    assert(fold_state(a + b) == (ob, ta + outb));
    assert(finish(ob, ta + outb) =~= ta + finish(ob, outb));
}

} // verus!
