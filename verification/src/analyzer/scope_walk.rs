//! Assigning template scopes to the nodes of a template.
//!
//! Each element with a `v-for` or `v-slot` directive (with a value) opens a new
//! scope, numbered in the order the elements are met (depth first), whose parent is
//! the scope the element is in. Elements and dynamic expressions record the scope
//! they are in. The variables a directive introduces are read from its value by the
//! caller, from the requests the walk hands back.
use vstd::prelude::*;

use crate::analyzer::scope::{chain_ends, lemma_lookup_fuel, Scope, ScopeHelper};
use crate::parser::attributes::HtmlAttribute;
use crate::parser::structs::{ElementNode, Node};
use crate::text::str_eq;

verus! {

/// A scope opened by a directive, whose variables are still to be collected from
/// the directive's value.
pub struct ScopeRequest {
    pub scope: u32,
    pub directive: String,
    pub value: String,
}

/// A scope opened during the walk: its parent, the directive that opened it and its value.
pub struct NewScope {
    pub parent: u32,
    pub directive: Seq<char>,
    pub value: Seq<char>,
}

pub open spec fn is_scoping_directive(a: HtmlAttribute) -> bool {
    a matches HtmlAttribute::VDirective(d) && (d.name@ == "for"@ || d.name@ == "slot"@) && d.value is Some
}

/// The index of the first `v-for` or `v-slot` directive with a value at or after `i`.
pub open spec fn first_scoping(attrs: Seq<HtmlAttribute>, i: int) -> int
    decreases attrs.len() - i,
{
    if 0 <= i < attrs.len() && !is_scoping_directive(attrs[i]) {
        first_scoping(attrs, i + 1)
    } else {
        i
    }
}

pub proof fn lemma_first_scoping(attrs: Seq<HtmlAttribute>, i: int)
    requires
        0 <= i <= attrs.len(),
    ensures
        i <= first_scoping(attrs, i) <= attrs.len(),
        first_scoping(attrs, i) < attrs.len() ==> is_scoping_directive(attrs[first_scoping(attrs, i)]),
    decreases attrs.len() - i,
{
    if i < attrs.len() && !is_scoping_directive(attrs[i]) {
        lemma_first_scoping(attrs, i + 1);
    }
}

pub open spec fn has_scoping(e: ElementNode) -> bool {
    first_scoping(e.starting_tag.attributes@, 0) < e.starting_tag.attributes@.len()
}

/// The scope that the element opens.
pub open spec fn scoping_record(e: ElementNode, parent: u32) -> NewScope {
    let d = e.starting_tag.attributes@[first_scoping(e.starting_tag.attributes@, 0)]->VDirective_0;
    NewScope {
        parent,
        directive: d.name@,
        value: match d.value {
            Some(v) => v@,
            None => Seq::empty(),
        },
    }
}

/// The scopes opened in a subtree.
pub open spec fn scope_count(n: Node) -> nat
    decreases n, 1int,
{
    match n {
        Node::ElementNode(e) => (if has_scoping(e) {
            1nat
        } else {
            0nat
        }) + children_scope_count(e.children@, e.children@.len() as int),
        _ => 0,
    }
}

/// The scopes opened in the first `k` children.
pub open spec fn children_scope_count(c: Seq<Node>, k: int) -> nat
    decreases c, 0int, k,
{
    if k <= 0 || k > c.len() {
        0
    } else {
        children_scope_count(c, k - 1) + scope_count(c[k - 1])
    }
}

/// The scopes a subtree opens, in order, when it is in scope `cur` and the next
/// scope to open is `base`.
pub open spec fn new_scopes(n: Node, cur: u32, base: nat) -> Seq<NewScope>
    decreases n, 1int,
{
    match n {
        Node::ElementNode(e) => if has_scoping(e) {
            seq![scoping_record(e, cur)] + children_new_scopes(e.children@, e.children@.len() as int, base as u32, base + 1)
        } else {
            children_new_scopes(e.children@, e.children@.len() as int, cur, base)
        },
        _ => Seq::empty(),
    }
}

/// The scopes the first `k` children open, the children being in scope `s` with
/// the next scope to open `b`.
pub open spec fn children_new_scopes(c: Seq<Node>, k: int, s: u32, b: nat) -> Seq<NewScope>
    decreases c, 0int, k,
{
    if k <= 0 || k > c.len() {
        Seq::empty()
    } else {
        children_new_scopes(c, k - 1, s, b) + new_scopes(c[k - 1], s, b + children_scope_count(c, k - 1))
    }
}

/// `new` is `old` with scopes recorded: an element is in the scope it opens (or in
/// `cur`), its children one after the other, each numbering its scopes after those
/// of the children before it; a dynamic expression is in `cur`; nothing else changes.
pub open spec fn walked(old: Node, new: Node, cur: u32, base: nat) -> bool
    decreases old, 1int,
{
    match old {
        Node::ElementNode(e) => match new {
            Node::ElementNode(f) => {
                let s = if has_scoping(e) {
                    base as u32
                } else {
                    cur
                };
                let b2 = if has_scoping(e) {
                    base + 1
                } else {
                    base
                };
                &&& f.starting_tag == e.starting_tag
                &&& f.template_scope == s
                &&& f.children@.len() == e.children@.len()
                &&& forall|k: int|
                    0 <= k < e.children@.len() ==> walked(
                        e.children@[k],
                        #[trigger] f.children@[k],
                        s,
                        b2 + children_scope_count(e.children@, k),
                    )
            },
            _ => false,
        },
        Node::DynamicExpression { value, .. } => new == Node::DynamicExpression { value, template_scope: cur },
        _ => new == old,
    }
}

/// The scopes from `base` on are fresh scopes with the parents of `ns`.
pub open spec fn scopes_match(scopes: Seq<Scope>, base: nat, ns: Seq<NewScope>) -> bool {
    &&& scopes.len() == base + ns.len()
    &&& forall|j: int|
        0 <= j < ns.len() ==> (#[trigger] scopes[base + j]).parent == ns[j].parent && scopes[base
            + j].variables@.len() == 0
}

/// The requests from `start` on ask for the scopes of `ns`, numbered from `base`.
pub open spec fn requests_match(reqs: Seq<ScopeRequest>, start: nat, base: nat, ns: Seq<NewScope>) -> bool {
    &&& reqs.len() == start + ns.len()
    &&& forall|j: int|
        0 <= j < ns.len() ==> (#[trigger] reqs[start + j]).scope == base + j && reqs[start
            + j].directive@ == ns[j].directive && reqs[start + j].value@ == ns[j].value
}

pub proof fn lemma_new_scopes_len(n: Node, cur: u32, base: nat)
    ensures
        new_scopes(n, cur, base).len() == scope_count(n),
    decreases n, 1int,
{
    if let Node::ElementNode(e) = n {
        assert(decreases_to!(n => n->ElementNode_0));
        let s = if has_scoping(e) { base as u32 } else { cur };
        let b2 = if has_scoping(e) { base + 1 } else { base };
        lemma_children_new_scopes_len(e.children@, e.children@.len() as int, s, b2);
    }
}

pub proof fn lemma_children_new_scopes_len(c: Seq<Node>, k: int, s: u32, b: nat)
    ensures
        children_new_scopes(c, k, s, b).len() == children_scope_count(c, k),
    decreases c, 0int, k,
{
    if 0 < k <= c.len() {
        lemma_children_new_scopes_len(c, k - 1, s, b);
        lemma_new_scopes_len(c[k - 1], s, b + children_scope_count(c, k - 1));
    }
}

/// The index of the first scoping directive.
fn find_scoping_directive(attrs: &Vec<HtmlAttribute>) -> (k: usize)
    ensures
        k == first_scoping(attrs@, 0),
        k <= attrs.len(),
{
    let mut k: usize = 0;
    while k < attrs.len()
        invariant
            k <= attrs.len(),
            first_scoping(attrs@, 0) == first_scoping(attrs@, k as int),
        decreases attrs.len() - k,
    {
        if let HtmlAttribute::VDirective(d) = &attrs[k] {
            if (str_eq(d.name.as_str(), "for") || str_eq(d.name.as_str(), "slot")) && d.value.is_some() {
                return k;
            }
        }
        k = k + 1;
    }
    k
}

impl ScopeHelper {
    /// Records the scopes of a template: scope 0 is added first when there are no
    /// scopes yet (and the template has nodes); then every root node is walked in
    /// scope 0. Gives the scopes whose variables are still to be collected.
    pub fn transform_and_record_ast(&mut self, ast: &mut Vec<Node>) -> (requests: Vec<ScopeRequest>)
        requires
            old(self).template_scopes@.len() + 1 + children_scope_count(old(ast)@, old(ast)@.len() as int)
                <= u32::MAX,
        ensures
            ({
                let base0 = if old(self).template_scopes@.len() == 0 && old(ast)@.len() != 0 {
                    1nat
                } else {
                    old(self).template_scopes@.len()
                };
                let ns = children_new_scopes(old(ast)@, old(ast)@.len() as int, 0, base0);
                &&& final(ast)@.len() == old(ast)@.len()
                &&& forall|k: int|
                    0 <= k < old(ast)@.len() ==> walked(
                        old(ast)@[k],
                        #[trigger] final(ast)@[k],
                        0,
                        base0 + children_scope_count(old(ast)@, k),
                    )
                &&& old(self).template_scopes@.len() == 0 && old(ast)@.len() != 0 ==> final(self).template_scopes@[0].parent == 0 && final(self).template_scopes@[0].variables@.len() == 0
                &&& old(self).template_scopes@.len() != 0 || old(ast)@.len() == 0 ==> final(self).template_scopes@.take(old(self).template_scopes@.len() as int) == old(self).template_scopes@
                &&& scopes_match(final(self).template_scopes@, base0, ns)
                &&& requests_match(requests@, 0, base0, ns)
            }),
            final(self).setup_vars == old(self).setup_vars,
            final(self).props_vars == old(self).props_vars,
            final(self).data_vars == old(self).data_vars,
            final(self).options_vars == old(self).options_vars,
            final(self).globals == old(self).globals,
    {
        // Add scope 0, the root of the template (it may be left without variables)
        if self.template_scopes.len() == 0 && ast.len() != 0 {
            self.template_scopes.push(Scope { variables: Vec::new(), parent: 0 });
        }
        let ghost base0 = self.template_scopes@.len();
        let ghost old_ast = ast@;
        let ghost scopes0 = self.template_scopes@;
        let mut requests: Vec<ScopeRequest> = Vec::new();

        let n = ast.len();
        let mut i: usize = 0;
        proof {
            assert(children_new_scopes(old_ast, 0, 0, base0) =~= Seq::<NewScope>::empty());
            lemma_children_new_scopes_len(old_ast, old_ast.len() as int, 0, base0);
        }
        while i < n
            invariant
                n == old_ast.len(),
                ast@.len() == n,
                i <= n,
                old_ast == old(ast)@,
                base0 == scopes0.len(),
                base0 + children_scope_count(old_ast, n as int) <= u32::MAX,
                forall|k: int| 0 <= k < i ==> walked(old_ast[k], #[trigger] ast@[k], 0, base0 + children_scope_count(old_ast, k)),
                forall|k: int| i <= k < n ==> #[trigger] ast@[k] == old_ast[k],
                self.template_scopes@.take(base0 as int) == scopes0,
                scopes_match(self.template_scopes@, base0, children_new_scopes(old_ast, i as int, 0, base0)),
                requests_match(requests@, 0, base0, children_new_scopes(old_ast, i as int, 0, base0)),
                self.setup_vars == old(self).setup_vars,
                self.props_vars == old(self).props_vars,
                self.data_vars == old(self).data_vars,
                self.options_vars == old(self).options_vars,
                self.globals == old(self).globals,
            decreases n - i,
        {
            proof {
                lemma_children_scope_count_mono(old_ast, i + 1, n as int);
                lemma_children_new_scopes_len(old_ast, i as int, 0, base0);
                lemma_new_scopes_len(old_ast[i as int], 0, base0 + children_scope_count(old_ast, i as int));
            }
            let ghost before_scopes = self.template_scopes@;
            let ghost before_reqs = requests@;
            self.walk_ast_node(&mut ast[i], 0, &mut requests);
            proof {
                let prev = children_new_scopes(old_ast, i as int, 0, base0);
                let cur = new_scopes(old_ast[i as int], 0, base0 + children_scope_count(old_ast, i as int));
                lemma_append_scopes(before_scopes, self.template_scopes@, base0, prev, cur);
                lemma_append_requests(before_reqs, requests@, base0, prev, cur);
                assert(children_new_scopes(old_ast, i + 1, 0, base0) == prev + cur);
                assert(self.template_scopes@.take(base0 as int) =~= scopes0) by {
                    assert forall|j: int| 0 <= j < base0 implies self.template_scopes@[j] == scopes0[j] by {
                        assert(self.template_scopes@.take(before_scopes.len() as int)[j] == before_scopes[j]);
                        assert(before_scopes.take(base0 as int)[j] == scopes0[j]);
                    }
                }
            }
            i = i + 1;
        }
        proof {
            if old(self).template_scopes@.len() != 0 || old(ast)@.len() == 0 {
                assert(self.template_scopes@.take(old(self).template_scopes@.len() as int) =~= old(self).template_scopes@);
            } else {
                assert(self.template_scopes@[0] == self.template_scopes@.take(base0 as int)[0]);
            }
        }
        requests
    }

    /// Walks a node in scope `current_scope_identifier` (see [`walked`]), opening the
    /// scopes of its `v-for` and `v-slot` directives and asking for their variables.
    pub fn walk_ast_node(&mut self, node: &mut Node, current_scope_identifier: u32, requests: &mut Vec<ScopeRequest>)
        requires
            old(self).template_scopes@.len() + scope_count(*old(node)) <= u32::MAX,
        ensures
            walked(*old(node), *final(node), current_scope_identifier, old(self).template_scopes@.len()),
            final(self).template_scopes@.take(old(self).template_scopes@.len() as int) == old(self).template_scopes@,
            scopes_match(
                final(self).template_scopes@,
                old(self).template_scopes@.len(),
                new_scopes(*old(node), current_scope_identifier, old(self).template_scopes@.len()),
            ),
            final(requests)@.take(old(requests)@.len() as int) == old(requests)@,
            requests_match(
                final(requests)@,
                old(requests)@.len(),
                old(self).template_scopes@.len(),
                new_scopes(*old(node), current_scope_identifier, old(self).template_scopes@.len()),
            ),
            final(self).setup_vars == old(self).setup_vars,
            final(self).props_vars == old(self).props_vars,
            final(self).data_vars == old(self).data_vars,
            final(self).options_vars == old(self).options_vars,
            final(self).globals == old(self).globals,
        decreases *old(node),
    {
        match node {
            Node::ElementNode(element_node) => {
                self.walk_element_node(element_node, current_scope_identifier, requests);
            },
            // For dynamic expression, just update the scope
            Node::DynamicExpression { template_scope, .. } => {
                *template_scope = current_scope_identifier;
                assert(self.template_scopes@.take(old(self).template_scopes@.len() as int) =~= old(self).template_scopes@);
                assert(requests@.take(old(requests)@.len() as int) =~= old(requests)@);
            },
            _ => {
                assert(self.template_scopes@.take(old(self).template_scopes@.len() as int) =~= old(self).template_scopes@);
                assert(requests@.take(old(requests)@.len() as int) =~= old(requests)@);
            },
        }
    }

    /// Walks an element: opens its scope when it has a scoping directive, records
    /// the scope it is in, and walks its children in that scope.
    #[verifier::spinoff_prover]
    fn walk_element_node(&mut self, element_node: &mut ElementNode, current_scope_identifier: u32, requests: &mut Vec<ScopeRequest>)
        requires
            old(self).template_scopes@.len() + scope_count(Node::ElementNode(*old(element_node))) <= u32::MAX,
        ensures
            walked(
                Node::ElementNode(*old(element_node)),
                Node::ElementNode(*final(element_node)),
                current_scope_identifier,
                old(self).template_scopes@.len(),
            ),
            final(self).template_scopes@.take(old(self).template_scopes@.len() as int) == old(self).template_scopes@,
            scopes_match(
                final(self).template_scopes@,
                old(self).template_scopes@.len(),
                new_scopes(Node::ElementNode(*old(element_node)), current_scope_identifier, old(self).template_scopes@.len()),
            ),
            final(requests)@.take(old(requests)@.len() as int) == old(requests)@,
            requests_match(
                final(requests)@,
                old(requests)@.len(),
                old(self).template_scopes@.len(),
                new_scopes(Node::ElementNode(*old(element_node)), current_scope_identifier, old(self).template_scopes@.len()),
            ),
            final(self).setup_vars == old(self).setup_vars,
            final(self).props_vars == old(self).props_vars,
            final(self).data_vars == old(self).data_vars,
            final(self).options_vars == old(self).options_vars,
            final(self).globals == old(self).globals,
        decreases Node::ElementNode(*old(element_node)), 0int,
    {
        let ghost e = *old(element_node);
        let ghost old_children = e.children@;
        let ghost base = self.template_scopes@.len();
        let ghost scopes0 = self.template_scopes@;
        let ghost reqs0 = requests@;
        let ghost has = has_scoping(e);

        // Finds a `v-for` or `v-slot` directive
        let k = find_scoping_directive(&element_node.starting_tag.attributes);
        proof {
            lemma_first_scoping(e.starting_tag.attributes@, 0);
        }

        // A scope to use for both the current node and its children (as a parent)
        let mut scope_to_use = current_scope_identifier;

        // Create a new scope
        if k < element_node.starting_tag.attributes.len() {
            // New scope will have ID equal to length
            scope_to_use = self.template_scopes.len() as u32;
            self.template_scopes.push(Scope { variables: Vec::new(), parent: current_scope_identifier });
            if let HtmlAttribute::VDirective(directive) = &element_node.starting_tag.attributes[k] {
                if let Some(value) = &directive.value {
                    requests.push(ScopeRequest { scope: scope_to_use, directive: directive.name.clone(), value: value.clone() });
                }
            }
        }
        let ghost head = if has { seq![scoping_record(e, current_scope_identifier)] } else { Seq::<NewScope>::empty() };
        let ghost b2 = if has { base + 1 } else { base };
        proof {
            lemma_new_scopes_len(Node::ElementNode(e), current_scope_identifier, base);
            lemma_children_new_scopes_len(old_children, old_children.len() as int, scope_to_use, b2);
            assert(children_new_scopes(old_children, 0, scope_to_use, b2) =~= Seq::<NewScope>::empty());
            assert(scopes_match(self.template_scopes@, base, head));
            assert(requests_match(requests@, reqs0.len(), base, head));
            assert(self.template_scopes@.take(base as int) =~= scopes0);
            assert(requests@.take(reqs0.len() as int) =~= reqs0);
        }

        // Update Node's scope
        element_node.template_scope = scope_to_use;

        // Walk children
        let n = element_node.children.len();
        let mut i: usize = 0;
        while i < n
            invariant
                n == old_children.len(),
                e == *old(element_node),
                old_children == e.children@,
                element_node.children@.len() == n,
                element_node.starting_tag == e.starting_tag,
                element_node.template_scope == scope_to_use,
                scope_to_use == (if has { base as u32 } else { current_scope_identifier }),
                has == has_scoping(e),
                b2 == (if has { base + 1 } else { base }),
                head == (if has { seq![scoping_record(e, current_scope_identifier)] } else { Seq::<NewScope>::empty() }),
                base == scopes0.len(),
                b2 + children_scope_count(old_children, n as int) <= u32::MAX,
                i <= n,
                forall|j: int|
                    0 <= j < i ==> walked(old_children[j], #[trigger] element_node.children@[j], scope_to_use, b2 + children_scope_count(old_children, j)),
                forall|j: int| i <= j < n ==> #[trigger] element_node.children@[j] == old_children[j],
                self.template_scopes@.take(base as int) == scopes0,
                requests@.take(reqs0.len() as int) == reqs0,
                scopes_match(self.template_scopes@, base, head + children_new_scopes(old_children, i as int, scope_to_use, b2)),
                requests_match(requests@, reqs0.len(), base, head + children_new_scopes(old_children, i as int, scope_to_use, b2)),
                self.setup_vars == old(self).setup_vars,
                self.props_vars == old(self).props_vars,
                self.data_vars == old(self).data_vars,
                self.options_vars == old(self).options_vars,
                self.globals == old(self).globals,
            decreases n - i,
        {
            proof {
                let j = i as int;
                assert(decreases_to!(e => e.children));
                assert(decreases_to!(e.children => e.children@));
                assert(decreases_to!(e.children@ => e.children@[j]));
                let nd = Node::ElementNode(e);
                assert(nd->ElementNode_0 == e);
                assert(decreases_to!(nd => nd->ElementNode_0));
                lemma_children_scope_count_mono(old_children, i + 1, n as int);
                lemma_children_new_scopes_len(old_children, i as int, scope_to_use, b2);
                lemma_new_scopes_len(old_children[j], scope_to_use, b2 + children_scope_count(old_children, j));
            }
            let ghost before_scopes = self.template_scopes@;
            let ghost before_reqs = requests@;
            self.walk_ast_node(&mut element_node.children[i], scope_to_use, requests);
            proof {
                let j = i as int;
                let prev = head + children_new_scopes(old_children, j, scope_to_use, b2);
                let cur = new_scopes(old_children[j], scope_to_use, b2 + children_scope_count(old_children, j));
                lemma_append_scopes(before_scopes, self.template_scopes@, base, prev, cur);
                lemma_append_requests_from(before_reqs, requests@, reqs0.len(), base, prev, cur);
                assert(head + children_new_scopes(old_children, j + 1, scope_to_use, b2) =~= prev + cur);
                assert(self.template_scopes@.take(base as int) =~= scopes0) by {
                    assert forall|m: int| 0 <= m < base implies self.template_scopes@[m] == scopes0[m] by {
                        assert(self.template_scopes@.take(before_scopes.len() as int)[m] == before_scopes[m]);
                        assert(before_scopes.take(base as int)[m] == scopes0[m]);
                    }
                }
                assert(requests@.take(reqs0.len() as int) =~= reqs0) by {
                    assert forall|m: int| 0 <= m < reqs0.len() implies requests@[m] == reqs0[m] by {
                        assert(requests@.take(before_reqs.len() as int)[m] == before_reqs[m]);
                        assert(before_reqs.take(reqs0.len() as int)[m] == reqs0[m]);
                    }
                }
            }
            i = i + 1;
        }
    }
}

/// The first `k` children open no more scopes than the first `m >= k`.
pub proof fn lemma_children_scope_count_mono(c: Seq<Node>, k: int, m: int)
    requires
        0 <= k <= m <= c.len(),
    ensures
        children_scope_count(c, k) <= children_scope_count(c, m),
    decreases m - k,
{
    if k < m {
        lemma_children_scope_count_mono(c, k, m - 1);
    }
}

/// Scopes that match `prev`, followed by scopes that match `cur`, match both.
proof fn lemma_append_scopes(before: Seq<Scope>, after: Seq<Scope>, base: nat, prev: Seq<NewScope>, cur: Seq<NewScope>)
    requires
        scopes_match(before, base, prev),
        after.take(before.len() as int) == before,
        scopes_match(after, before.len(), cur),
    ensures
        scopes_match(after, base, prev + cur),
{
    let all = prev + cur;
    assert forall|j: int| 0 <= j < all.len() implies (#[trigger] after[base + j]).parent == all[j].parent && after[base
        + j].variables@.len() == 0 by {
        if j < prev.len() {
            assert(after[base + j] == after.take(before.len() as int)[base + j]);
        } else {
            assert(after[before.len() + (j - prev.len())] == after[base + j]);
        }
    }
}

proof fn lemma_append_requests_from(before: Seq<ScopeRequest>, after: Seq<ScopeRequest>, start: nat, base: nat, prev: Seq<NewScope>, cur: Seq<NewScope>)
    requires
        requests_match(before, start, base, prev),
        after.take(before.len() as int) == before,
        requests_match(after, before.len(), base + prev.len(), cur),
    ensures
        requests_match(after, start, base, prev + cur),
{
    let all = prev + cur;
    assert forall|j: int| 0 <= j < all.len() implies (#[trigger] after[start + j]).scope == base + j
        && after[start + j].directive@ == all[j].directive && after[start + j].value@ == all[j].value by {
        if j < prev.len() {
            assert(after[start + j] == after.take(before.len() as int)[start + j]);
        } else {
            assert(after[before.len() + (j - prev.len())] == after[start + j]);
        }
    }
}

proof fn lemma_append_requests(before: Seq<ScopeRequest>, after: Seq<ScopeRequest>, base: nat, prev: Seq<NewScope>, cur: Seq<NewScope>)
    requires
        requests_match(before, 0, base, prev),
        after.take(before.len() as int) == before,
        requests_match(after, before.len(), base + prev.len(), cur),
    ensures
        requests_match(after, 0, base, prev + cur),
{
    lemma_append_requests_from(before, after, 0, base, prev, cur);
}


/// Every scope's parent comes at or before it.
pub open spec fn parents_before(scopes: Seq<Scope>) -> bool {
    forall|j: int| 0 <= j < scopes.len() ==> (#[trigger] scopes[j]).parent <= j
}

/// With every parent at or before its scope, every parent chain ends.
pub proof fn lemma_parents_before_chain_ends(scopes: Seq<Scope>, i: int)
    requires
        parents_before(scopes),
        0 <= i,
    ensures
        chain_ends(scopes, i, i as nat),
    decreases i,
{
    if i < scopes.len() && scopes[i].parent != i {
        let p = scopes[i].parent as int;
        assert(p < i);
        lemma_parents_before_chain_ends(scopes, p);
        lemma_lookup_fuel(scopes, p, Seq::empty(), p as nat, (i - 1) as nat);
    }
}

/// The scopes a subtree opens have parents opened before them.
pub proof fn lemma_new_scopes_parents(n: Node, cur: u32, base: nat)
    requires
        cur < base,
        base + scope_count(n) <= u32::MAX + 1,
    ensures
        forall|j: int| 0 <= j < new_scopes(n, cur, base).len() ==> (#[trigger] new_scopes(n, cur, base)[j]).parent < base + j,
    decreases n, 1int,
{
    if let Node::ElementNode(e) = n {
        assert(decreases_to!(n => n->ElementNode_0));
        if has_scoping(e) {
            assert(base <= u32::MAX);
            lemma_children_new_scopes_parents(e.children@, e.children@.len() as int, base as u32, base + 1);
            let rest = children_new_scopes(e.children@, e.children@.len() as int, base as u32, base + 1);
            assert forall|j: int| 0 <= j < new_scopes(n, cur, base).len() implies (#[trigger] new_scopes(n, cur, base)[j]).parent < base + j by {
                if j > 0 {
                    assert(new_scopes(n, cur, base)[j] == rest[j - 1]);
                } else {
                    assert(new_scopes(n, cur, base)[0] == scoping_record(e, cur));
                }
            }
        } else {
            lemma_children_new_scopes_parents(e.children@, e.children@.len() as int, cur, base);
            assert(new_scopes(n, cur, base) == children_new_scopes(e.children@, e.children@.len() as int, cur, base));
        }
    }
}

pub proof fn lemma_children_new_scopes_parents(c: Seq<Node>, k: int, s: u32, b: nat)
    requires
        s < b,
        b + children_scope_count(c, k) <= u32::MAX + 1,
    ensures
        forall|j: int| 0 <= j < children_new_scopes(c, k, s, b).len() ==> (#[trigger] children_new_scopes(c, k, s, b)[j]).parent < b + j,
    decreases c, 0int, k,
{
    if 0 < k <= c.len() {
        lemma_children_new_scopes_parents(c, k - 1, s, b);
        let off = b + children_scope_count(c, k - 1);
        assert(children_scope_count(c, k) == children_scope_count(c, k - 1) + scope_count(c[k - 1]));
        lemma_children_new_scopes_len(c, k - 1, s, b);
        lemma_new_scopes_parents(c[k - 1], s, off);
        let prev = children_new_scopes(c, k - 1, s, b);
        let cur = new_scopes(c[k - 1], s, off);
        assert forall|j: int| 0 <= j < (prev + cur).len() implies (#[trigger] (prev + cur)[j]).parent < b + j by {
            if j >= prev.len() {
                assert((prev + cur)[j] == cur[j - prev.len()]);
            }
        }
    }
}

/// Recording a template keeps scopes well-founded: when every scope before had its
/// parent at or before it, so does every scope after, and every parent chain ends
/// (which a variable lookup needs).
pub proof fn lemma_recorded_scopes_chains_end(scopes: Seq<Scope>, base: nat, ast: Seq<Node>)
    requires
        base > 0,
        base + children_scope_count(ast, ast.len() as int) <= u32::MAX + 1,
        parents_before(scopes.take(base as int)),
        scopes_match(scopes, base, children_new_scopes(ast, ast.len() as int, 0, base)),
    ensures
        parents_before(scopes),
        forall|i: int| 0 <= i ==> #[trigger] chain_ends(scopes, i, i as nat),
{
    let ns = children_new_scopes(ast, ast.len() as int, 0, base);
    lemma_children_new_scopes_parents(ast, ast.len() as int, 0, base);
    assert forall|j: int| 0 <= j < scopes.len() implies (#[trigger] scopes[j]).parent <= j by {
        if j < base {
            assert(scopes.take(base as int)[j] == scopes[j]);
        } else {
            assert(scopes[base + (j - base)].parent == ns[j - base].parent);
        }
    }
    assert forall|i: int| 0 <= i implies #[trigger] chain_ends(scopes, i, i as nat) by {
        lemma_parents_before_chain_ends(scopes, i);
    }
}

} // verus!
