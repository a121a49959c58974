//! Code generation of nodes: element vnodes, component vnodes with their slots,
//! `<slot>` outlets, children arrays and text concatenations.
//!
//! These functions call each other along the template tree, so they share this module.
use vstd::prelude::*;

use crate::compiler::codegen::CodegenContext;
use crate::compiler::gen_spec::{
    all_text, at_level, children_fit, escape_quotes, first_regular_value, first_slot_directive,
    fits, gen_children, gen_component_vnode, gen_element_args, gen_element_vnode, gen_items,
    gen_named_slots, element_prefix, element_suffix,
    gen_node, gen_slot_outlet, gen_slots, gen_text_run, is_from_default_slot,
    is_named_slot_directive, is_text_like, lemma_children_fit, lemma_fits_mono,
    lemma_text_run_end, q, slot_header, spec_is_component, spec_needs_wrapper, spec_trim,
    text_items, text_literal, text_run_end, trim_end_index, trim_start_index, vmodel_supported,
    with_import,
};
use crate::compiler::helper::CodeHelper;
use crate::compiler::imports::{import_name, VueImports};
use crate::parser::attributes::{opt_str_view, HtmlAttribute};
use crate::parser::structs::{ElementNode, Node, StartingTag};
use crate::templates::ast_optimizer::{is_whitespace, spec_is_whitespace};
use crate::text::{chars_of, push_char, push_str, str_eq, string_from_range};

verus! {

/// `"` becomes `\"`.
fn escape_text(v: &str) -> (r: String)
    ensures
        r@ == escape_quotes(v@),
{
    let chars = chars_of(v);
    let mut out = String::new();
    let mut i: usize = 0;
    while i < chars.len()
        invariant
            chars@ == v@,
            i <= chars.len(),
            out@ == escape_quotes(v@.take(i as int)),
        decreases chars.len() - i,
    {
        let c = chars[i];
        if c == '"' {
            push_char(&mut out, '\\');
            push_char(&mut out, '"');
        } else {
            push_char(&mut out, c);
        }
        proof {
            let t = v@.take(i + 1);
            assert(t.drop_last() =~= v@.take(i as int));
            assert(t.last() == c);
            assert(out@ =~= escape_quotes(t));
        }
        i = i + 1;
    }
    assert(v@.take(chars.len() as int) =~= v@);
    out
}

/// The index of the first non-whitespace character, or the length.
pub(crate) fn trim_start(v: &Vec<char>) -> (lo: usize)
    ensures
        lo == trim_start_index(v@, 0),
        lo <= v.len(),
{
    let mut i: usize = 0;
    while i < v.len() && is_whitespace(v[i])
        invariant
            i <= v.len(),
            trim_start_index(v@, 0) == trim_start_index(v@, i as int),
        decreases v.len() - i,
    {
        i = i + 1;
    }
    i
}

/// The index just past the last non-whitespace character at or after `lo`.
pub(crate) fn trim_end(v: &Vec<char>, lo: usize) -> (hi: usize)
    requires
        lo <= v.len(),
    ensures
        hi == trim_end_index(v@, lo as int, v.len() as int),
        lo <= hi <= v.len(),
{
    let mut j: usize = v.len();
    while lo < j && is_whitespace(v[j - 1])
        invariant
            lo <= j <= v.len(),
            trim_end_index(v@, lo as int, v.len() as int) == trim_end_index(v@, lo as int, j as int),
        decreases j,
    {
        j = j - 1;
    }
    j
}

/// Writes raw text as a Js string: quotes escaped, surrounding whitespace trimmed
/// and replaced by one space on each side where there was some.
fn push_text_literal(buf: &mut String, v: &str)
    ensures
        final(buf)@ == old(buf)@ + text_literal(v@),
{
    proof {
        reveal(text_literal);
    }
    let escaped_text = escape_text(v);
    let chars = chars_of(escaped_text.as_str());
    let lo = trim_start(&chars);
    let hi = trim_end(&chars, lo);
    let trimmed_text = string_from_range(&chars, lo, hi);
    let has_start_whitespace = chars.len() > 0 && is_whitespace(chars[0]);
    let has_end_whitespace = chars.len() > 0 && is_whitespace(chars[chars.len() - 1]);
    assert(trimmed_text@ == spec_trim(escape_quotes(v@)));

    push_char(buf, '"');
    if has_start_whitespace {
        push_char(buf, ' ');
    }
    push_str(buf, trimmed_text.as_str());
    if has_end_whitespace && hi > lo {
        push_char(buf, ' ');
    }
    push_char(buf, '"');
    assert(buf@ =~= old(buf)@ + text_literal(v@));
}

/// Whether a node is text or a dynamic expression (both go into text concatenations).
fn is_text_node(node: &Node) -> (r: bool)
    ensures
        r == is_text_like(*node),
{
    match node {
        Node::TextNode(_) | Node::DynamicExpression { .. } => true,
        _ => false,
    }
}

/// A `<template>` with a named `v-slot` does not belong to the default slot.
pub(crate) fn is_from_default_slot_node(node: &Node) -> (r: bool)
    ensures
        r == is_from_default_slot(*node),
{
    match node {
        Node::ElementNode(e) => {
            assert(*node == Node::ElementNode(*e));
            if !str_eq(e.starting_tag.tag_name.as_str(), "template") {
                return true;
            }
            let attrs = &e.starting_tag.attributes;
            let mut k: usize = 0;
            while k < attrs.len()
                invariant
                    attrs@ == e.starting_tag.attributes@,
                    e.starting_tag.tag_name@ == "template"@,
                    *node == Node::ElementNode(*e),
                    k <= attrs.len(),
                    forall|j: int| 0 <= j < k ==> !is_named_slot_directive(#[trigger] attrs@[j]),
                decreases attrs.len() - k,
            {
                if let HtmlAttribute::VDirective(d) = &attrs[k] {
                    if str_eq(d.name.as_str(), "slot") && !str_eq(d.argument.as_str(), "") && !str_eq(
                        d.argument.as_str(),
                        "default",
                    ) {
                        assert(is_named_slot_directive(e.starting_tag.attributes@[k as int]));
                        assert(e.starting_tag.tag_name@ == "template"@);
                        assert(!is_from_default_slot(Node::ElementNode(*e)));
                        return false;
                    }
                }
                k = k + 1;
            }
            true
        },
        _ => true,
    }
}

/// The value of the first plain attribute called `key`.
fn find_regular_value<'b>(attrs: &'b Vec<HtmlAttribute>, key: &str) -> (r: Option<&'b str>)
    ensures
        (match r {
            Some(v) => Some(v@),
            None => None,
        }) == first_regular_value(attrs@, key@),
{
    let mut k: usize = 0;
    assert(attrs@.skip(0) =~= attrs@);
    while k < attrs.len()
        invariant
            k <= attrs.len(),
            first_regular_value(attrs@, key@) == first_regular_value(attrs@.skip(k as int), key@),
        decreases attrs.len() - k,
    {
        assert(attrs@.skip(k as int)[0] == attrs@[k as int]);
        if let HtmlAttribute::Regular { name, value } = &attrs[k] {
            if str_eq(name.as_str(), key) {
                return Some(value.as_str());
            }
        }
        assert(attrs@.skip(k as int).drop_first() =~= attrs@.skip(k + 1));
        k = k + 1;
    }
    None
}

/// The index of the first `v-slot` directive.
fn find_slot_directive(attrs: &Vec<HtmlAttribute>) -> (k: usize)
    ensures
        k == first_slot_directive(attrs@, 0),
        k <= attrs.len(),
{
    let mut k: usize = 0;
    while k < attrs.len()
        invariant
            k <= attrs.len(),
            first_slot_directive(attrs@, 0) == first_slot_directive(attrs@, k as int),
        decreases attrs.len() - k,
    {
        if let HtmlAttribute::VDirective(d) = &attrs[k] {
            if str_eq(d.name.as_str(), "slot") {
                return k;
            }
        }
        k = k + 1;
    }
    k
}

impl<'a> CodegenContext<'a> {
    /// Concatenates text nodes with ` + `, wrapped in `_createTextVNode(..., 1 /* TEXT */)` when asked.
    /// Dynamic expressions go through `_toDisplayString`; other nodes are passed over.
    pub fn create_text_concatenation_from_nodes(&mut self, buf: &mut String, nodes: &[Node], surround_with_create_text_vnode: bool) -> (r: bool)
        ensures
            r,
            ({
                let (t, st) = gen_text_run(old(self).gen_state(), nodes@, surround_with_create_text_vnode);
                &&& final(buf)@ == old(buf)@ + t
                &&& final(self).gen_state() == st
            }),
            final(self).code_helper.indent_level == old(self).code_helper.indent_level,
            final(self).env() == old(self).env(),
            final(self).hoists == old(self).hoists,
    {
        proof {
            reveal(gen_text_run);
        }
        // Add function call if asked
        if surround_with_create_text_vnode {
            push_str(buf, self.get_and_add_import_str(VueImports::CreateTextVNode));
            push_char(buf, '(');
        }
        let ghost st1 = self.gen_state();
        let ghost start = buf@;
        let ghost all = text_items(st1, nodes@, 0, false);

        let mut had_first_el = false;
        let mut i: usize = 0;
        while i < nodes.len()
            invariant
                i <= nodes.len(),
                self.code_helper.indent_level == old(self).code_helper.indent_level,
                self.env() == old(self).env(),
                self.hoists == old(self).hoists,
                all == text_items(st1, nodes@, 0, false),
                all.0 == buf@.skip(start.len() as int) + text_items(self.gen_state(), nodes@, i as int, had_first_el).0,
                all.1 == text_items(self.gen_state(), nodes@, i as int, had_first_el).1,
                start.len() <= buf@.len(),
                buf@.take(start.len() as int) == start,
            decreases nodes.len() - i,
        {
            let ghost before = buf@;
            let ghost sti = self.gen_state();
            let ghost hf = had_first_el;
            let node = &nodes[i];
            match node {
                // Raw text becomes a Js string
                Node::TextNode(v) => {
                    if had_first_el {
                        push_str(buf, " + ");
                    }
                    push_text_literal(buf, v.as_str());
                    had_first_el = true;
                },
                // A dynamic expression becomes a `toDisplayString` call
                Node::DynamicExpression { value, .. } => {
                    if had_first_el {
                        push_str(buf, " + ");
                    }
                    push_str(buf, self.get_and_add_import_str(VueImports::ToDisplayString));
                    push_char(buf, '(');
                    push_str(buf, value.as_str());
                    push_char(buf, ')');
                    had_first_el = true;
                },
                _ => {},
            }
            proof {
                let sep = if hf { " + "@ } else { Seq::<char>::empty() };
                match nodes@[i as int] {
                    Node::TextNode(v) => {
                        assert(buf@ =~= before + sep + text_literal(v@));
                    },
                    Node::DynamicExpression { value, .. } => {
                        assert(buf@ =~= before + sep + import_name(VueImports::ToDisplayString) + seq!['('] + value@
                            + seq![')']);
                    },
                    _ => {},
                }
                assert(buf@.skip(start.len() as int) =~= before.skip(start.len() as int) + (buf@.skip(
                    before.len() as int,
                )));
                assert(buf@.take(start.len() as int) =~= start);
            }
            i = i + 1;
        }
        assert(buf@ =~= start + all.0);
        if surround_with_create_text_vnode {
            push_str(buf, ", 1 /* TEXT */)");
        }
        proof {
            reveal_strlit("(");
        }
        assert(buf@ =~= old(buf)@ + gen_text_run(old(self).gen_state(), nodes@, surround_with_create_text_vnode).0);
        true
    }

    /// Generates `(openBlock(), createElementBlock(`
    fn generate_create_element_block(&mut self, buf: &mut String)
        ensures
            final(buf)@ == old(buf)@ + seq!['('] + import_name(VueImports::OpenBlock) + "(), "@ + import_name(
                VueImports::CreateElementBlock,
            ) + seq!['('],
            final(self).gen_state() == with_import(
                with_import(old(self).gen_state(), VueImports::OpenBlock),
                VueImports::CreateElementBlock,
            ),
            final(self).code_helper.indent_level == old(self).code_helper.indent_level,
            final(self).env() == old(self).env(),
            final(self).hoists == old(self).hoists,
    {
        CodeHelper::open_paren(buf);
        push_str(buf, self.get_and_add_import_str(VueImports::OpenBlock));
        CodeHelper::open_paren(buf);
        CodeHelper::close_paren(buf);
        CodeHelper::comma(buf);
        push_str(buf, self.get_and_add_import_str(VueImports::CreateElementBlock));
        CodeHelper::open_paren(buf);
        proof {
            reveal_strlit("(), ");
            reveal_strlit(", ");
        }
        assert(buf@ =~= old(buf)@ + seq!['('] + import_name(VueImports::OpenBlock) + "(), "@ + import_name(
            VueImports::CreateElementBlock,
        ) + seq!['(']);
    }

    /// The code of a node: `<slot>` becomes a `_renderSlot` call, components become
    /// component vnodes and other elements element vnodes. Gives whether anything was
    /// generated: text, expressions and comments give nothing here.
    pub fn compile_node(&mut self, buf: &mut String, node: &Node, wrap_in_block: bool) -> (r: bool)
        requires
            fits(old(self).env(), *node, usize::MAX - old(self).code_helper.indent_level),
        ensures
            ({
                let (w, t, st) = gen_node(old(self).env(), old(self).gen_state(), *node, wrap_in_block);
                &&& r == w
                &&& final(buf)@ == old(buf)@ + t
                &&& final(self).gen_state() == st
            }),
            final(self).code_helper.indent_level == old(self).code_helper.indent_level,
            final(self).env() == old(self).env(),
            final(self).hoists == old(self).hoists,
        decreases node, 1int,
    {
        proof {
            reveal_with_fuel(gen_node, 1);
            reveal_with_fuel(gen_slot_outlet, 1);
            reveal_with_fuel(gen_component_vnode, 1);
            reveal_with_fuel(gen_element_vnode, 1);
        }
        match node {
            Node::ElementNode(element_node) => {
                proof {
                    assert(decreases_to!(*node => node->ElementNode_0));
                    assert(*node == Node::ElementNode(*element_node));
                }
                if str_eq(element_node.starting_tag.tag_name.as_str(), "slot") {
                    self.compile_slot(buf, element_node);
                } else if self.is_component(&element_node.starting_tag) {
                    self.create_component_vnode(buf, element_node);
                } else {
                    self.create_element_vnode(buf, element_node, wrap_in_block);
                }
                true
            },
            _ => {
                assert(old(buf)@ + Seq::<char>::empty() =~= old(buf)@);
                false
            },
        }
    }

    /// Generates an element vnode: `_createElementVNode("tag", attributes, children, -1 /* HOISTED */)`,
    /// as `(_openBlock(), _createElementBlock(...))` when `wrap_in_block` holds and inside
    /// `_withDirectives(..., [directives])` when the element has directives for it.
    #[verifier::spinoff_prover]
    #[verifier::rlimit(60)]
    pub fn create_element_vnode(&mut self, buf: &mut String, element_node: &ElementNode, wrap_in_block: bool)
        requires
            fits(old(self).env(), Node::ElementNode(*element_node), usize::MAX - old(self).code_helper.indent_level),
            vmodel_supported(element_node.starting_tag, false),
        ensures
            ({
                let (t, st) = gen_element_vnode(old(self).env(), old(self).gen_state(), *element_node, wrap_in_block);
                &&& final(buf)@ == old(buf)@ + t
                &&& final(self).gen_state() == st
            }),
            final(self).code_helper.indent_level == old(self).code_helper.indent_level,
            final(self).env() == old(self).env(),
            final(self).hoists == old(self).hoists,
        decreases element_node, 1int,
    {
        proof {
            reveal_with_fuel(gen_element_vnode, 1);
            reveal_with_fuel(gen_element_args, 1);
        }
        let ghost env = self.env();
        let ghost st0 = self.gen_state();
        let starting_tag = &element_node.starting_tag;

        // Special generation: `_withDirectives` prefix
        let needs_directive = Self::needs_directive_wrapper(starting_tag, false);
        if needs_directive {
            push_str(buf, self.get_and_add_import_str(VueImports::WithDirectives));
            CodeHelper::open_paren(buf);
        }
        // Special generation: (openBlock(), createElementBlock(
        if wrap_in_block {
            self.generate_create_element_block(buf);
        } else {
            push_str(buf, self.get_and_add_import_str(VueImports::CreateElementVNode));
            CodeHelper::open_paren(buf);
        }
        let ghost prefix_end = buf@;
        let ghost ep = element_prefix(st0, needs_directive, wrap_in_block);
        assert(prefix_end =~= old(buf)@ + ep.0);
        assert(self.gen_state() == ep.1);

        // Tag name, attributes and children
        self.generate_element_args(buf, element_node);
        let ghost args_end = buf@;
        let ghost ga = gen_element_args(env, ep.1, *element_node);

        CodeHelper::comma(buf);
        push_str(buf, "-1 /* HOISTED */");
        // When the block was opened, we need to close the extra parenthesis
        if wrap_in_block {
            CodeHelper::close_paren(buf)
        }
        // Ending paren
        CodeHelper::close_paren(buf);
        let ghost call_end = buf@;
        assert(call_end =~= args_end + element_suffix(wrap_in_block));

        // Generate directives array if needed
        if needs_directive {
            CodeHelper::comma(buf);
            self.generate_directives(buf, starting_tag, false);
            CodeHelper::close_paren(buf);
        }
        let ghost gd = crate::compiler::gen_spec::gen_directives(env, ga.1, *starting_tag, false);
        assert(buf@ =~= call_end + (if needs_directive {
            ", "@ + gd.0 + seq![')']
        } else {
            Seq::empty()
        }));
        assert(buf@ =~= old(buf)@ + ep.0 + ga.0 + element_suffix(wrap_in_block) + (if needs_directive {
            ", "@ + gd.0 + seq![')']
        } else {
            Seq::empty()
        }));
    }

    /// `"tag", attributes or null, children or null`
    #[verifier::spinoff_prover]
    #[verifier::rlimit(60)]
    fn generate_element_args(&mut self, buf: &mut String, element_node: &ElementNode)
        requires
            fits(old(self).env(), Node::ElementNode(*element_node), usize::MAX - old(self).code_helper.indent_level),
        ensures
            ({
                let (t, st) = gen_element_args(old(self).env(), old(self).gen_state(), *element_node);
                &&& final(buf)@ == old(buf)@ + t
                &&& final(self).gen_state() == st
            }),
            final(self).code_helper.indent_level == old(self).code_helper.indent_level,
            final(self).env() == old(self).env(),
            final(self).hoists == old(self).hoists,
        decreases element_node, 0int,
    {
        proof {
            reveal_with_fuel(gen_element_args, 1);
            reveal_with_fuel(gen_children, 1);
        }
        let ghost env = self.env();
        let ghost room = usize::MAX - self.code_helper.indent_level;
        let ghost st0 = self.gen_state();
        let starting_tag = &element_node.starting_tag;
        proof {
            lemma_children_fit(env, *element_node, room, room);
        }
        // Tag name
        CodeHelper::quoted(buf, starting_tag.tag_name.as_str());

        // Attributes
        CodeHelper::comma(buf);
        let ghost before_attrs = buf@;
        let ghost ga = crate::compiler::gen_spec::gen_attributes(st0, starting_tag.attributes@, true);
        let has_generated_attributes = self.generate_attributes(buf, &starting_tag.attributes, true);
        if !has_generated_attributes {
            push_str(buf, "null");
        }
        let ghost attrs_end = buf@;
        assert(attrs_end =~= before_attrs + (if ga.0 { ga.1 } else { "null"@ }));

        // Children
        CodeHelper::comma(buf);
        let ghost before_children = buf@;
        let ghost gc = gen_children(env, ga.2, element_node.children@, true);
        proof {
            assert(decreases_to!(*element_node => element_node.children));
        }
        let has_generated_children = self.generate_element_children(buf, &element_node.children, true);
        if !has_generated_children {
            push_str(buf, "null");
        }
        assert(buf@ =~= before_children + (if gc.0 { gc.1 } else { "null"@ }));
        assert(buf@ =~= old(buf)@ + gen_element_args(env, st0, *element_node).0);
    }

    /// One item of a children array, preceded by its separator: the run of text nodes
    /// that starts at `index`, or the node at `index`. Gives where the next item starts.
    #[verifier::spinoff_prover]
    #[verifier::rlimit(60)]
    fn generate_child_item(&mut self, buf: &mut String, children: &Vec<Node>, index: usize, should_inline: bool, is_multiline: bool) -> (next: usize)
        requires
            index < children.len(),
            forall|k: int|
                0 <= k < children@.len() ==> fits(
                    old(self).env(),
                    #[trigger] children@[k],
                    usize::MAX - old(self).code_helper.indent_level,
                ),
        ensures
            index < next <= children.len(),
            old(buf)@.len() <= final(buf)@.len(),
            final(buf)@.take(old(buf)@.len() as int) == old(buf)@,
            gen_items(old(self).env(), old(self).gen_state(), children@, index as int, should_inline, is_multiline) == (
                final(buf)@.skip(old(buf)@.len() as int) + gen_items(
                    old(self).env(),
                    final(self).gen_state(),
                    children@,
                    next as int,
                    should_inline,
                    is_multiline,
                ).0,
                gen_items(old(self).env(), final(self).gen_state(), children@, next as int, should_inline, is_multiline).1,
            ),
            final(self).code_helper.indent_level == old(self).code_helper.indent_level,
            final(self).env() == old(self).env(),
            final(self).hoists == old(self).hoists,
        decreases children@, 1int,
    {
        proof {
            reveal_with_fuel(gen_items, 1);
            reveal_with_fuel(gen_node, 1);
        }
        let ghost env = self.env();
        let ghost i0 = index as int;
        // Add separator
        if index > 0 && is_multiline {
            self.code_helper.comma_newline(buf)
        } else if index > 0 {
            CodeHelper::comma(buf)
        }
        let ghost after_sep = buf@;
        if is_text_node(&children[index]) {
            // A run of text nodes, i.e. (TextNode | DynamicExpression)+
            let mut end = index + 1;
            proof {
                lemma_text_run_end(children@, i0);
            }
            while end < children.len() && is_text_node(&children[end])
                invariant
                    index < end <= children.len(),
                    text_run_end(children@, i0) == text_run_end(children@, end as int),
                decreases children.len() - end,
            {
                end = end + 1;
            }
            proof {
                lemma_text_run_end(children@, end as int);
            }
            let text_nodes = &children.as_slice()[index..end];
            assert(text_nodes@ == children@.subrange(i0, end as int));
            self.create_text_concatenation_from_nodes(buf, text_nodes, !should_inline);
            assert(buf@.skip(old(buf)@.len() as int) =~= after_sep.skip(old(buf)@.len() as int) + buf@.skip(
                after_sep.len() as int,
            ));
            assert(buf@.take(old(buf)@.len() as int) =~= old(buf)@);
            end
        } else {
            proof {
                assert(decreases_to!(children@ => children@[i0]));
            }
            self.compile_node(buf, &children[index], false);
            assert(buf@.skip(old(buf)@.len() as int) =~= after_sep.skip(old(buf)@.len() as int) + buf@.skip(
                after_sep.len() as int,
            ));
            assert(buf@.take(old(buf)@.len() as int) =~= old(buf)@);
            index + 1
        }
    }

    /// Generates the children as a Js array: runs of text nodes become one text
    /// concatenation each, other nodes their code. When all children are text and
    /// `allow_inlining` holds, the concatenation is written in place of the array.
    /// Gives `false` (and writes nothing) when there are no children.
    pub fn generate_element_children(&mut self, buf: &mut String, children: &Vec<Node>, allow_inlining: bool) -> (r: bool)
        requires
            children_fit(old(self).env(), children@, usize::MAX - old(self).code_helper.indent_level),
        ensures
            ({
                let (w, t, st) = gen_children(old(self).env(), old(self).gen_state(), children@, allow_inlining);
                &&& r == w
                &&& final(buf)@ == old(buf)@ + t
                &&& final(self).gen_state() == st
            }),
            final(self).code_helper.indent_level == old(self).code_helper.indent_level,
            !r ==> final(buf)@ == old(buf)@ && final(self).gen_state() == old(self).gen_state(),
            final(self).env() == old(self).env(),
            final(self).hoists == old(self).hoists,
        decreases children@, 2int,
    {
        proof {
            reveal_with_fuel(gen_children, 1);
            reveal_with_fuel(gen_items, 1);
            reveal_with_fuel(gen_node, 1);
        }
        // Do no work if children vec is empty
        if children.len() == 0 {
            assert(old(buf)@ + Seq::<char>::empty() =~= old(buf)@);
            return false;
        }
        let ghost env = self.env();
        let ghost st0 = self.gen_state();
        let ghost level = self.code_helper.indent_level as nat;

        // We can inline if all the nodes are text nodes, but only if explicitly allowed
        let mut is_inlinable = true;
        let mut k: usize = 0;
        while k < children.len()
            invariant
                k <= children.len(),
                is_inlinable == (forall|j: int| 0 <= j < k ==> is_text_like(#[trigger] children@[j])),
            decreases children.len() - k,
        {
            if !is_text_node(&children[k]) {
                is_inlinable = false;
            }
            k = k + 1;
        }
        assert(is_inlinable == all_text(children@));
        let should_inline = allow_inlining && is_inlinable;

        // Check if we need to spread the results over multiple lines
        let is_multiline = !is_inlinable && children.len() > 1;

        // Start Js array
        if !should_inline {
            push_char(buf, '[');
        }
        if is_multiline {
            self.code_helper.indent();
            self.code_helper.newline(buf);
        }
        let ghost l = self.code_helper.indent_level as nat;
        let ghost start = buf@;
        let ghost all = gen_items(env, at_level(st0, l), children@, 0, should_inline, is_multiline);
        assert(self.gen_state() == at_level(st0, l));

        proof {
            assert forall|k: int| 0 <= k < children@.len() implies fits(env, #[trigger] children@[k], usize::MAX - l) by {
                lemma_fits_mono(env, children@[k], usize::MAX - level - 1, usize::MAX - l);
            }
        }
        let mut index: usize = 0;
        while index < children.len()
            invariant
                index <= children.len(),
                env == self.env(),
                l == self.code_helper.indent_level,
                self.hoists == old(self).hoists,
                forall|k: int| 0 <= k < children@.len() ==> fits(env, #[trigger] children@[k], usize::MAX - l),
                all == gen_items(env, at_level(st0, l), children@, 0, should_inline, is_multiline),
                all.0 == buf@.skip(start.len() as int) + gen_items(
                    env,
                    self.gen_state(),
                    children@,
                    index as int,
                    should_inline,
                    is_multiline,
                ).0,
                all.1 == gen_items(env, self.gen_state(), children@, index as int, should_inline, is_multiline).1,
                start.len() <= buf@.len(),
                buf@.take(start.len() as int) == start,
            decreases children.len() - index,
        {
            let ghost before = buf@;
            index = self.generate_child_item(buf, children, index, should_inline, is_multiline);
            proof {
                assert(buf@.skip(start.len() as int) =~= before.skip(start.len() as int) + buf@.skip(
                    before.len() as int,
                ));
                assert(buf@.take(start.len() as int) =~= start);
            }
        }
        assert(buf@ =~= start + all.0);

        // Close Js array
        if is_multiline {
            self.code_helper.unindent();
            self.code_helper.newline(buf);
        }
        if !should_inline {
            push_char(buf, ']');
        }
        assert(buf@ =~= old(buf)@ + gen_children(env, st0, children@, allow_inlining).1);
        true
    }

    /// Generates a component vnode: `_createVNode(_component_name, attributes or null, slots)`.
    #[verifier::spinoff_prover]
    #[verifier::rlimit(60)]
    pub fn create_component_vnode(&mut self, buf: &mut String, element_node: &ElementNode)
        requires
            fits(old(self).env(), Node::ElementNode(*element_node), usize::MAX - old(self).code_helper.indent_level),
        ensures
            ({
                let (t, st) = gen_component_vnode(old(self).env(), old(self).gen_state(), *element_node);
                &&& final(buf)@ == old(buf)@ + t
                &&& final(self).gen_state() == st
            }),
            final(self).code_helper.indent_level == old(self).code_helper.indent_level,
            final(self).env() == old(self).env(),
            final(self).hoists == old(self).hoists,
        decreases element_node, 0int,
    {
        proof {
            reveal_with_fuel(gen_component_vnode, 1);
            reveal_with_fuel(gen_slots, 1);
        }
        let ghost env = self.env();
        let ghost room = usize::MAX - self.code_helper.indent_level;
        let starting_tag = &element_node.starting_tag;
        let children = &element_node.children;
        proof {
            lemma_children_fit(env, *element_node, room, room);
        }
        let ghost st0 = self.gen_state();
        push_str(buf, self.get_and_add_import_str(VueImports::CreateVNode));
        push_char(buf, '(');
        let ghost st1 = self.gen_state();
        assert(st1 == with_import(st0, VueImports::CreateVNode));
        let ghost head = buf@;
        self.add_to_components_and_write(buf, starting_tag.tag_name.as_str());
        let ghost ac = crate::compiler::gen_spec::add_component(st1, starting_tag.tag_name@);
        assert(buf@ == head + ac.0);
        let ghost st2 = self.gen_state();

        // Attributes (default to null)
        CodeHelper::comma(buf);
        let ghost before_attrs = buf@;
        let ghost ga = crate::compiler::gen_spec::gen_attributes(st2, starting_tag.attributes@, true);
        let has_generated_attributes = self.generate_attributes(buf, &starting_tag.attributes, true);
        if !has_generated_attributes {
            CodeHelper::null(buf);
        }
        let ghost attrs_end = buf@;
        let ghost st3 = self.gen_state();
        assert(attrs_end =~= before_attrs + (if ga.0 { ga.1 } else { "null"@ }));
        assert(st3 == ga.2);

        // Slots
        CodeHelper::comma(buf);
        let ghost before_slots = buf@;
        proof {
            assert(decreases_to!(*element_node => element_node.children));
        }
        self.generate_slots(buf, children);
        let ghost gs = gen_slots(env, st3, element_node.children@);
        assert(buf@ == before_slots + gs.0);
        CodeHelper::close_paren(buf);
        proof {
            reveal_strlit("(");
        }
        assert(buf@ =~= old(buf)@ + import_name(VueImports::CreateVNode) + seq!['('] + ac.0 + ", "@ + (if ga.0 {
            ga.1
        } else {
            "null"@
        }) + ", "@ + gs.0 + seq![')']);
        assert(st2 == ac.1);
        assert(gen_component_vnode(env, st0, *element_node).0 == import_name(VueImports::CreateVNode) + seq!['('] + ac.0 + ", "@ + (if ga.0 {
            ga.1
        } else {
            "null"@
        }) + ", "@ + gs.0 + seq![')']);
        assert(buf@ =~= old(buf)@ + gen_component_vnode(env, st0, *element_node).0);
    }

    /// `"name": _withCtx((props) => ` for the first `v-slot` directive of a `<template>`
    /// (`[_ctx.name]` for a dynamic slot name); nothing without one.
    fn generate_slot_header(&mut self, buf: &mut String, attributes: &Vec<HtmlAttribute>)
        ensures
            ({
                let (t, st) = slot_header(old(self).gen_state(), attributes@);
                &&& final(buf)@ == old(buf)@ + t
                &&& final(self).gen_state() == st
            }),
            final(self).code_helper.indent_level == old(self).code_helper.indent_level,
            final(self).env() == old(self).env(),
            final(self).hoists == old(self).hoists,
    {
        let k = find_slot_directive(attributes);
        if k < attributes.len() {
            if let HtmlAttribute::VDirective(d) = &attributes[k] {
                // For dynamic slots, generate a dynamic slot name `[_ctx.slotName]`
                if d.is_dynamic_slot {
                    push_str(buf, "[_ctx.");
                    push_str(buf, d.argument.as_str());
                    push_char(buf, ']');
                } else {
                    CodeHelper::quoted(buf, d.argument.as_str());
                }
                // Context. Generates `: _withCtx(() =>` or `: _withCtx((ctx) =>`
                CodeHelper::colon(buf);
                push_str(buf, self.get_and_add_import_str(VueImports::WithCtx));
                CodeHelper::open_paren(buf);
                let value = match &d.value {
                    Some(v) => Some(v.as_str()),
                    None => None,
                };
                CodeHelper::parens_option(buf, value);
                push_str(buf, " => ");
                assert(buf@ =~= old(buf)@ + slot_header(old(self).gen_state(), attributes@).0);
                return;
            }
        }
        assert(old(buf)@ + Seq::<char>::empty() =~= old(buf)@);
    }

    /// Double-pass slots code generation
    /// First pass generates named slots, while the second is for default slot
    #[verifier::spinoff_prover]
    #[verifier::rlimit(60)]
    pub fn generate_slots(&mut self, buf: &mut String, children: &Vec<Node>)
        requires
            children_fit(old(self).env(), children@, usize::MAX - old(self).code_helper.indent_level),
        ensures
            ({
                let (t, st) = gen_slots(old(self).env(), old(self).gen_state(), children@);
                &&& final(buf)@ == old(buf)@ + t
                &&& final(self).gen_state() == st
            }),
            final(self).code_helper.indent_level == old(self).code_helper.indent_level,
            final(self).env() == old(self).env(),
            final(self).hoists == old(self).hoists,
        decreases children@, 3int,
    {
        proof {
            reveal_with_fuel(gen_slots, 1);
            reveal_with_fuel(gen_named_slots, 1);
            reveal_with_fuel(gen_children, 1);
        }
        let ghost env = self.env();
        let ghost st0 = self.gen_state();
        let ghost level = self.code_helper.indent_level;
        let ghost room = usize::MAX - level;
        push_char(buf, '{');
        let ghost start = buf@;
        let ghost all = gen_named_slots(env, st0, children@, 0, false);

        // For commas and default slot generation
        let mut needs_slot_comma = false;

        // First pass: named slots. Those are `<template>` elements with a defined slot name
        let mut i: usize = 0;
        while i < children.len()
            invariant
                i <= children.len(),
                env == self.env(),
                level == self.code_helper.indent_level,
                room == usize::MAX - level,
                self.hoists == old(self).hoists,
                children_fit(env, children@, room),
                all == gen_named_slots(env, st0, children@, 0, false),
                all.0 == buf@.skip(start.len() as int) + gen_named_slots(
                    env,
                    self.gen_state(),
                    children@,
                    i as int,
                    needs_slot_comma,
                ).0,
                all.1 == gen_named_slots(env, self.gen_state(), children@, i as int, needs_slot_comma).1,
                all.2 == gen_named_slots(env, self.gen_state(), children@, i as int, needs_slot_comma).2,
                start.len() <= buf@.len(),
                buf@.take(start.len() as int) == start,
            decreases children.len() - i,
        {
            proof {
                reveal_with_fuel(gen_named_slots, 1);
                reveal_with_fuel(gen_children, 1);
            }
            let ghost before = buf@;
            let child = &children[i];
            if !is_from_default_slot_node(child) {
                if let Node::ElementNode(template) = child {
                    if needs_slot_comma {
                        CodeHelper::comma(buf);
                    }
                    // Find needed attribute and generate the header (slot name + ctx)
                    self.generate_slot_header(buf, &template.starting_tag.attributes);
                    // Children
                    proof {
                        assert(decreases_to!(children@ => children@[i as int]));
                        assert(decreases_to!(children@[i as int] => children@[i as int]->ElementNode_0));
                        assert(decreases_to!(*template => template.children));
                        assert(fits(env, children@[i as int], room - 1));
                        lemma_children_fit(env, *template, room - 1, room);
                    }
                    let had_children_work = self.generate_element_children(buf, &template.children, false);
                    if !had_children_work {
                        push_str(buf, "[]");
                    }
                    CodeHelper::close_paren(buf);
                    needs_slot_comma = true;
                }
            }
            proof {
                assert(buf@.skip(start.len() as int) =~= before.skip(start.len() as int) + buf@.skip(
                    before.len() as int,
                ));
                assert(buf@.take(start.len() as int) =~= start);
            }
            i = i + 1;
        }
        assert(buf@ =~= start + all.0);
        let ghost named_end = buf@;

        // Second pass: default slot
        let mut has_default = false;
        let mut k: usize = 0;
        while k < children.len()
            invariant
                k <= children.len(),
                has_default == (exists|j: int| 0 <= j < k && is_from_default_slot(#[trigger] children@[j])),
            decreases children.len() - k,
        {
            if is_from_default_slot_node(&children[k]) {
                has_default = true;
            }
            k = k + 1;
        }
        if has_default {
            if needs_slot_comma {
                CodeHelper::comma(buf);
            }
            push_str(buf, "default: _withCtx(() => ");
            self.generate_element_children(buf, children, false);
            CodeHelper::close_paren(buf);
        }
        push_char(buf, '}');
        assert(buf@ =~= old(buf)@ + gen_slots(env, st0, children@).0);
    }

    /// Generates a `<slot>` outlet: `_renderSlot(_ctx.$slots, "name", { attributes }, () => children)`.
    #[verifier::spinoff_prover]
    #[verifier::rlimit(60)]
    pub fn compile_slot(&mut self, buf: &mut String, element_node: &ElementNode)
        requires
            fits(old(self).env(), Node::ElementNode(*element_node), usize::MAX - old(self).code_helper.indent_level),
        ensures
            ({
                let (t, st) = gen_slot_outlet(old(self).env(), old(self).gen_state(), *element_node);
                &&& final(buf)@ == old(buf)@ + t
                &&& final(self).gen_state() == st
            }),
            final(self).code_helper.indent_level == old(self).code_helper.indent_level,
            final(self).env() == old(self).env(),
            final(self).hoists == old(self).hoists,
        decreases element_node, 0int,
    {
        proof {
            reveal_with_fuel(gen_slot_outlet, 1);
            reveal_with_fuel(gen_children, 1);
        }
        let ghost env = self.env();
        let ghost room = usize::MAX - self.code_helper.indent_level;
        let attributes = &element_node.starting_tag.attributes;
        proof {
            lemma_children_fit(env, *element_node, room, room);
        }
        push_str(buf, self.get_and_add_import_str(VueImports::RenderSlot));
        CodeHelper::open_paren(buf);
        push_str(buf, "_ctx.$slots, ");

        // Name of the slot (option because we'll need it one more time)
        let slot_name_option = find_regular_value(attributes, "name");
        let slot_name = match slot_name_option {
            Some(n) => n,
            None => "default",
        };
        CodeHelper::quoted(buf, slot_name);

        // Has attributes: attributes length is > 1 if `name` is present, > 0 otherwise
        let name_count: usize = match slot_name_option {
            Some(_) => 1,
            None => 0,
        };
        let has_attributes = attributes.len() > name_count;

        // Has children. Check to avoid generating extra
        let has_children = element_node.children.len() > 0;

        // Early exit: no attributes and no children
        if !has_attributes || !has_children {
            CodeHelper::close_paren(buf);
            proof {
                reveal_strlit("name");
            }
            assert(buf@ =~= old(buf)@ + gen_slot_outlet(env, old(self).gen_state(), *element_node).0);
            return;
        }

        // When there are attributes other than name, generate them
        CodeHelper::comma(buf);
        self.generate_attributes_excluding(buf, attributes, true, true);

        // Generate children
        CodeHelper::comma(buf);
        push_str(buf, "() => ");
        proof {
            assert(decreases_to!(*element_node => element_node.children));
        }
        self.generate_element_children(buf, &element_node.children, false);
        CodeHelper::close_paren(buf);
        proof {
            reveal_strlit("name");
            reveal_strlit("(");
        }
        assert(buf@ =~= old(buf)@ + gen_slot_outlet(env, old(self).gen_state(), *element_node).0);
    }
}

} // verus!
