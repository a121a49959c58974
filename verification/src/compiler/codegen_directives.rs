//! Code generation of directives: the `_withDirectives` array of an element and the
//! resolution of custom directives.
use vstd::prelude::*;

use crate::compiler::codegen::{pairs_view, CodegenContext};
use crate::compiler::gen_spec::{lemma_vmodel_directive_by_element, 
    add_directive, at_level, dash_to_underscore, directive_ident, directive_tail, find_entry, lemma_directive_ident_level,
    gen_directive, gen_directives,
    gen_directives_from, gen_resolves, input_type, is_model_directive, vmodel_supported, is_dir_skipped, lemma_find_entry_skip,
    modifiers_obj, needs_wrapper_for, nl, q, resolve_line, resolve_lines, resolve_name,
    spec_needs_wrapper, supports_v_model, vmodel_import, with_import, GenState,
};
use crate::compiler::helper::{entry_text, join_entries, CodeHelper};
use crate::compiler::imports::{import_name, VueImports};
use crate::parser::attributes::{opt_str_view, strings_view, HtmlAttribute, VDirective};
use crate::parser::structs::StartingTag;
use crate::text::{chars_of, push_char, push_str, str_eq, to_owned_string};

verus! {

/// Writes the identifier registered for `name`, registering `prefix` followed by
/// `name` (with `-` replaced by `_`) first when `name` is new.
pub fn resolve_ident(entries: &mut Vec<(String, String)>, buf: &mut String, name: &str, prefix: &str)
    ensures
        ({
            let (ident, m) = resolve_name(pairs_view(old(entries)@), name@, prefix@);
            &&& final(buf)@ == old(buf)@ + ident
            &&& pairs_view(final(entries)@) == m
        }),
{
    let ghost m0 = pairs_view(entries@);
    assert(m0 == pairs_view(old(entries)@));
    // Check existence and early exit
    let mut k: usize = 0;
    while k < entries.len()
        invariant
            m0 == pairs_view(entries@),
            entries@ == old(entries)@,
            buf@ == old(buf)@,
            k <= entries.len(),
            forall|j: int| 0 <= j < k ==> (#[trigger] m0[j]).0 != name@,
        decreases entries.len() - k,
    {
        assert(m0[k as int] == (entries@[k as int].0@, entries@[k as int].1@));
        if str_eq(entries[k].0.as_str(), name) {
            proof {
                lemma_find_entry_skip(m0, name@, k as int);
                assert(m0.skip(k as int)[0] == m0[k as int]);
                assert(find_entry(m0, name@) == Some(m0[k as int].1));
            }
            push_str(buf, entries[k].1.as_str());
            assert(resolve_name(m0, name@, prefix@).0 == entries@[k as int].1@);
            return;
        }
        k = k + 1;
    }
    proof {
        lemma_find_entry_skip(m0, name@, k as int);
        assert(m0.skip(k as int).len() == 0);
        assert(find_entry(m0, name@) is None);
    }
    // The prefix plus the name, dashes replaced by underscores
    let chars = chars_of(name);
    let mut ident = to_owned_string(prefix);
    let mut i: usize = 0;
    while i < chars.len()
        invariant
            chars@ == name@,
            buf@ == old(buf)@,
            entries@ == old(entries)@,
            i <= chars.len(),
            ident@ == prefix@ + dash_to_underscore(name@).take(i as int),
        decreases chars.len() - i,
    {
        let c = chars[i];
        if c == '-' {
            push_char(&mut ident, '_');
        } else {
            push_char(&mut ident, c);
        }
        assert(dash_to_underscore(name@).take(i + 1) =~= dash_to_underscore(name@).take(i as int).push(
            dash_to_underscore(name@)[i as int],
        ));
        i = i + 1;
    }
    assert(dash_to_underscore(name@).take(chars.len() as int) =~= dash_to_underscore(name@));
    push_str(buf, ident.as_str());
    entries.push((to_owned_string(name), ident));
    assert(pairs_view(entries@) =~= m0.push((name@, prefix@ + dash_to_underscore(name@))));
}

/// The value of the first plain `type` attribute, `text` without one.
fn find_input_type(attributes: &Vec<HtmlAttribute>) -> (r: &str)
    ensures
        r@ == input_type(attributes@),
{
    let mut k: usize = 0;
    assert(attributes@.skip(0) =~= attributes@);
    while k < attributes.len()
        invariant
            k <= attributes.len(),
            input_type(attributes@) == input_type(attributes@.skip(k as int)),
        decreases attributes.len() - k,
    {
        assert(attributes@.skip(k as int)[0] == attributes@[k as int]);
        if let HtmlAttribute::Regular { name, value } = &attributes[k] {
            if str_eq(name.as_str(), "type") {
                return value.as_str();
            }
        }
        assert(attributes@.skip(k as int).drop_first() =~= attributes@.skip(k + 1));
        k = k + 1;
    }
    proof {
        reveal_strlit("text");
    }
    "text"
}

impl<'a> CodegenContext<'a> {
    /// Function for determining whether a given element/component
    /// needs to be wrapped in `_withDirectives(<node code>, <directives code>)`
    /// Typically, it depends on `is_component` flag:
    /// 1. `is_component = true` and has any directive except for 'on', 'bind', 'slot' and 'model';
    /// 2. `is_component = false` and has any directive except for 'on', 'bind' and 'slot'.
    pub fn needs_directive_wrapper(starting_tag: &StartingTag, is_component: bool) -> (r: bool)
        ensures
            r == spec_needs_wrapper(starting_tag.attributes@, is_component),
    {
        let attrs = &starting_tag.attributes;
        let mut needs_vmodel = false;
        let mut needs_custom_directive = false;
        let mut k: usize = 0;
        while k < attrs.len()
            invariant
                attrs@ == starting_tag.attributes@,
                k <= attrs.len(),
                needs_vmodel == (exists|j: int| 0 <= j < k && is_model_directive(#[trigger] attrs@[j])),
                needs_custom_directive == (exists|j: int|
                    0 <= j < k && #[trigger] needs_wrapper_for(attrs@[j], true)),
            decreases attrs.len() - k,
        {
            if let HtmlAttribute::VDirective(d) = &attrs[k] {
                if str_eq(d.name.as_str(), "model") {
                    needs_vmodel = true;
                } else if !str_eq(d.name.as_str(), "bind") && !str_eq(d.name.as_str(), "on") && !str_eq(
                    d.name.as_str(),
                    "slot",
                ) {
                    needs_custom_directive = true;
                }
            }
            proof {
                assert(is_model_directive(attrs@[k as int]) == (needs_wrapper_for(attrs@[k as int], false)
                    && !needs_wrapper_for(attrs@[k as int], true)));
            }
            k = k + 1;
        }
        proof {
            if spec_needs_wrapper(starting_tag.attributes@, is_component) {
                let j = choose|j: int|
                    0 <= j < attrs@.len() && needs_wrapper_for(#[trigger] attrs@[j], is_component);
                if is_model_directive(attrs@[j]) {
                    assert(!is_component);
                } else {
                    assert(needs_wrapper_for(attrs@[j], true));
                }
            }
            if needs_custom_directive {
                let j = choose|j: int| 0 <= j < k && #[trigger] needs_wrapper_for(attrs@[j], true);
                assert(needs_wrapper_for(attrs@[j], is_component));
            }
            if needs_vmodel && !is_component {
                let j = choose|j: int| 0 <= j < k && is_model_directive(#[trigger] attrs@[j]);
                assert(needs_wrapper_for(attrs@[j], is_component));
            }
        }
        if is_component {
            needs_custom_directive
        } else {
            needs_vmodel || needs_custom_directive
        }
    }

    /// Writes the identifier of a custom directive, registering it when first seen.
    pub fn add_to_directives_and_write(&mut self, buf: &mut String, directive_name: &str)
        ensures
            ({
                let (ident, st) = add_directive(old(self).gen_state(), directive_name@);
                &&& final(buf)@ == old(buf)@ + ident
                &&& final(self).gen_state() == st
            }),
            final(self).env() == old(self).env(),
            final(self).hoists == old(self).hoists,
            final(self).components == old(self).components,
    {
        resolve_ident(&mut self.directives, buf, directive_name, "_directive_");
    }

    /// The runtime directive of `v-model` on `<input>` (by its `type`), `<textarea>` or `<select>`.
    pub fn get_vmodel_directive_name(&mut self, starting_tag: &StartingTag) -> (r: &'static str)
        requires
            supports_v_model(starting_tag.tag_name@),
        ensures
            r@ == import_name(vmodel_import(*starting_tag)),
            starting_tag.tag_name@ == "input"@ && input_type(starting_tag.attributes@) == "radio"@ ==> r@ == "_vModelRadio"@,
            starting_tag.tag_name@ == "input"@ && input_type(starting_tag.attributes@) == "checkbox"@ ==> r@ == "_vModelCheckbox"@,
            final(self).gen_state() == with_import(old(self).gen_state(), vmodel_import(*starting_tag)),
            final(self).env() == old(self).env(),
            final(self).hoists == old(self).hoists,
            final(self).components == old(self).components,
    {
        // These cases need special handling of v-model
        // input type=* -> vModelText
        // input type="radio" -> vModelRadio
        // input type="checkbox" -> vModelCheckbox
        // select -> vModelSelect
        // textarea -> vModelText
        proof {
            lemma_vmodel_directive_by_element(*starting_tag);
        }
        if str_eq(starting_tag.tag_name.as_str(), "input") {
            let input_type = find_input_type(&starting_tag.attributes);
            if str_eq(input_type, "checkbox") {
                self.get_and_add_import_str(VueImports::VModelCheckbox)
            } else if str_eq(input_type, "radio") {
                self.get_and_add_import_str(VueImports::VModelRadio)
            } else {
                self.get_and_add_import_str(VueImports::VModelText)
            }
        } else if str_eq(starting_tag.tag_name.as_str(), "textarea") {
            self.get_and_add_import_str(VueImports::VModelText)
        } else {
            self.get_and_add_import_str(VueImports::VModelSelect)
        }
    }

    /// Generates a Js object, where keys are modifier names and values are `true`
    /// For example, `v-directive:prop.foo.bar` would have `{ foo: true, bar: true }`
    pub fn generate_modifiers_obj(&mut self, buf: &mut String, modifiers: &Vec<String>)
        requires
            old(self).code_helper.indent_level < usize::MAX,
        ensures
            final(buf)@ == old(buf)@ + modifiers_obj(
                old(self).env(),
                old(self).code_helper.indent_level as nat,
                strings_view(modifiers@),
            ),
            final(self).gen_state() == old(self).gen_state(),
            final(self).env() == old(self).env(),
            final(self).hoists == old(self).hoists,
            final(self).components == old(self).components,
    {
        let ghost env = self.env();
        let ghost level = self.code_helper.indent_level as nat;
        let ghost mods = strings_view(modifiers@);
        let ghost entries = mods.map_values(|m: Seq<char>| (m, "true"@));
        let ghost sep = if modifiers.len() > 1 {
            seq![','] + nl(env, level + 1)
        } else {
            ", "@
        };
        assert(mods.len() == modifiers.len());
        push_char(buf, '{');

        let is_multiline = modifiers.len() > 1;
        if is_multiline {
            self.code_helper.indent();
            self.code_helper.newline(buf);
        }
        let ghost start = buf@;

        let mut index: usize = 0;
        while index < modifiers.len()
            invariant
                is_multiline == (modifiers@.len() > 1),
                mods == strings_view(modifiers@),
                entries == mods.map_values(|m: Seq<char>| (m, "true"@)),
                env == self.env(),
                self.code_helper.indent_level == (if is_multiline { level + 1 } else { level }),
                sep == (if is_multiline {
                    seq![','] + nl(env, level + 1)
                } else {
                    ", "@
                }),
                self.gen_state() == at_level(old(self).gen_state(), self.code_helper.indent_level as nat),
                self.hoists == old(self).hoists,
                self.components == old(self).components,
                index <= modifiers.len(),
                buf@ == start + join_entries(entries.take(index as int), sep),
            decreases modifiers.len() - index,
        {
            let ghost before = buf@;
            if index > 0 && is_multiline {
                self.code_helper.comma_newline(buf);
            } else if index > 0 {
                CodeHelper::comma(buf);
            }
            let modifier = modifiers[index].as_str();
            if CodeHelper::needs_escape(modifier) {
                CodeHelper::quoted(buf, modifier)
            } else {
                push_str(buf, modifier)
            }
            CodeHelper::colon(buf);
            push_str(buf, "true");
            proof {
                let t = entries.take(index + 1);
                assert(t.drop_last() =~= entries.take(index as int));
                assert(t.last() == entries[index as int]);
                assert(entries[index as int] == (modifier@, "true"@));
                if index == 0 {
                    assert(buf@ =~= before + entry_text(entries[index as int]));
                } else {
                    assert(buf@ =~= before + sep + entry_text(entries[index as int]));
                }
            }
            index = index + 1;
        }
        assert(entries.take(modifiers.len() as int) =~= entries);
        let ghost mid = buf@;
        if is_multiline {
            self.code_helper.unindent();
            self.code_helper.newline(buf);
        }
        push_char(buf, '}');
        assert(buf@ =~= old(buf)@ + modifiers_obj(env, level, mods));
    }

    /// Writes the identifier of a directive (see [`directive_ident`]).
    fn generate_directive_ident(&mut self, buf: &mut String, starting_tag: &StartingTag, d: &VDirective)
        requires
            d.name@ == "model"@ ==> supports_v_model(starting_tag.tag_name@),
        ensures
            ({
                let (t, st) = directive_ident(old(self).gen_state(), *starting_tag, *d);
                &&& final(buf)@ == old(buf)@ + t
                &&& final(self).gen_state() == st
            }),
            final(self).code_helper.indent_level == old(self).code_helper.indent_level,
            final(self).env() == old(self).env(),
            final(self).hoists == old(self).hoists,
            final(self).components == old(self).components,
    {
        proof {
            reveal(directive_ident);
        }
        // This is either from Vue (vModel*) or the identifier of custom directive
        if str_eq(d.name.as_str(), "model") {
            let vmodel_directive = self.get_vmodel_directive_name(starting_tag);
            push_str(buf, vmodel_directive);
        } else {
            self.add_to_directives_and_write(buf, d.name.as_str());
        }
    }

    /// Writes the value, argument and modifiers of a directive (see [`directive_tail`]),
    /// at one level deeper than the current one when it has an argument or modifiers.
    fn generate_directive_tail(&mut self, buf: &mut String, d: &VDirective, has_argument: bool)
        requires
            old(self).code_helper.indent_level < usize::MAX,
            has_argument == (d.argument@.len() > 0),
        ensures
            final(buf)@ == old(buf)@ + directive_tail(
                old(self).env(),
                old(self).code_helper.indent_level as nat,
                *d,
            ),
            final(self).gen_state() == old(self).gen_state(),
            final(self).env() == old(self).env(),
            final(self).hoists == old(self).hoists,
            final(self).components == old(self).components,
    {
        proof {
            reveal(directive_tail);
        }
        let ghost env = self.env();
        let ghost l2 = self.code_helper.indent_level as nat;
        let has_modifiers = d.modifiers.len() > 0;
        let has_arg_or_modifiers = has_argument || has_modifiers;
        let ghost start = buf@;
        let ghost cn = seq![','] + nl(env, l2);

        // <directive_value>?
        if let Some(directive_value) = &d.value {
            if has_arg_or_modifiers {
                self.code_helper.comma_newline(buf);
            } else {
                CodeHelper::comma(buf);
            }
            push_str(buf, "_ctx.");
            push_str(buf, directive_value.as_str());
        } else if has_arg_or_modifiers {
            self.code_helper.comma_newline(buf);
            push_str(buf, "void 0");
        }
        let ghost after_value = buf@;
        assert(after_value =~= start + (match opt_str_view(d.value) {
            Some(v) => (if has_arg_or_modifiers {
                cn
            } else {
                ", "@
            }) + "_ctx."@ + v,
            None => if has_arg_or_modifiers {
                cn + "void 0"@
            } else {
                Seq::empty()
            },
        }));

        // <directive_arg>?
        if has_arg_or_modifiers {
            self.code_helper.comma_newline(buf);
            if has_argument {
                CodeHelper::quoted(buf, d.argument.as_str())
            } else {
                push_str(buf, "void 0")
            }
        }
        let ghost after_arg = buf@;
        assert(after_arg =~= after_value + (if has_arg_or_modifiers {
            cn + (if has_argument {
                q(d.argument@)
            } else {
                "void 0"@
            })
        } else {
            Seq::empty()
        }));

        // <directive_modifiers>?
        if has_modifiers {
            self.code_helper.comma_newline(buf);
            self.generate_modifiers_obj(buf, &d.modifiers);
        }
        assert(buf@ =~= old(buf)@ + directive_tail(env, l2, *d));
    }

    /// One directive as `[ident, value, arg, modifiers]`, starting on a new line.
    fn generate_directive(&mut self, buf: &mut String, starting_tag: &StartingTag, d: &VDirective)
        requires
            old(self).code_helper.indent_level + 2 < usize::MAX,
            d.name@ == "model"@ ==> supports_v_model(starting_tag.tag_name@),
        ensures
            ({
                let (t, st) = gen_directive(old(self).env(), old(self).gen_state(), *starting_tag, *d);
                &&& final(buf)@ == old(buf)@ + t
                &&& final(self).gen_state() == st
            }),
            final(self).code_helper.indent_level == old(self).code_helper.indent_level,
            final(self).env() == old(self).env(),
            final(self).hoists == old(self).hoists,
            final(self).components == old(self).components,
    {
        let ghost env = self.env();
        let ghost st0 = self.gen_state();
        let ghost l = st0.level;
        self.code_helper.newline(buf);

        // Whether to split generated input across multiple lines or inline in one
        let has_argument = chars_of(d.argument.as_str()).len() > 0;
        let has_modifiers = d.modifiers.len() > 0;
        let has_arg_or_modifiers = has_argument || has_modifiers;

        // A directive is an array of
        // [<directive_ident>, <directive_value>?, <directive_arg>?, <directive_modifiers>?]
        CodeHelper::open_sq_bracket(buf);
        if has_arg_or_modifiers {
            self.code_helper.indent();
            self.code_helper.newline(buf);
        }
        let ghost head = buf@;
        proof {
            lemma_directive_ident_level(st0, *starting_tag, *d, self.code_helper.indent_level as nat);
        }
        assert(head =~= old(buf)@ + nl(env, l) + seq!['['] + (if has_arg_or_modifiers {
            nl(env, l + 1)
        } else {
            Seq::empty()
        }));

        self.generate_directive_ident(buf, starting_tag, d);
        let ghost after_ident = buf@;
        assert(after_ident == head + directive_ident(st0, *starting_tag, *d).0);
        if has_arg_or_modifiers {
            self.generate_directive_tail(buf, d, has_argument);
            self.code_helper.unindent();
            self.code_helper.newline(buf);
        } else {
            // Nothing of the tail goes on a line of its own here
            self.code_helper.indent();
            self.generate_directive_tail(buf, d, has_argument);
            self.code_helper.unindent();
        }
        assert(buf@ =~= after_ident + directive_tail(env, l + 1, *d) + (if has_arg_or_modifiers {
            nl(env, l)
        } else {
            Seq::empty()
        }));
        CodeHelper::close_sq_bracket(buf);
        assert(buf@ =~= old(buf)@ + gen_directive(env, st0, *starting_tag, *d).0);
    }

    /// Generates the Js array of the directives of an element or component,
    /// the second argument of `_withDirectives`.
    pub fn generate_directives(&mut self, buf: &mut String, starting_tag: &StartingTag, is_component: bool)
        requires
            old(self).code_helper.indent_level + 3 < usize::MAX,
            vmodel_supported(*starting_tag, is_component),
        ensures
            ({
                let (t, st) = gen_directives(old(self).env(), old(self).gen_state(), *starting_tag, is_component);
                &&& final(buf)@ == old(buf)@ + t
                &&& final(self).gen_state() == st
            }),
            final(self).code_helper.indent_level == old(self).code_helper.indent_level,
            final(self).env() == old(self).env(),
            final(self).hoists == old(self).hoists,
            final(self).components == old(self).components,
    {
        proof {
            reveal(gen_directives);
        }
        let ghost env = self.env();
        let ghost st0 = self.gen_state();
        let ghost all = gen_directives_from(env, st0, *starting_tag, 0, is_component);
        // Open Js array
        CodeHelper::open_sq_bracket(buf);
        let ghost after_open = buf@;

        let attrs = &starting_tag.attributes;
        let mut i: usize = 0;
        while i < attrs.len()
            invariant
                attrs@ == starting_tag.attributes@,
                vmodel_supported(*starting_tag, is_component),
                env == self.env(),
                self.gen_state().level == st0.level,
                st0.level == old(self).code_helper.indent_level,
                old(self).code_helper.indent_level + 3 < usize::MAX,
                self.hoists == old(self).hoists,
                self.components == old(self).components,
                i <= attrs.len(),
                all == gen_directives_from(env, st0, *starting_tag, 0, is_component),
                all.0 == buf@.skip(after_open.len() as int) + gen_directives_from(
                    env,
                    self.gen_state(),
                    *starting_tag,
                    i as int,
                    is_component,
                ).0,
                all.1 == gen_directives_from(env, self.gen_state(), *starting_tag, i as int, is_component).1,
                after_open.len() <= buf@.len(),
                buf@.take(after_open.len() as int) == after_open,
            decreases attrs.len() - i,
        {
            let ghost before = buf@;
            let ghost sti = self.gen_state();
            if let HtmlAttribute::VDirective(d) = &attrs[i] {
                // Do not process "bind", "on" and "slot"
                // Do not process "model" for `is_component`
                let skipped = str_eq(d.name.as_str(), "bind") || str_eq(d.name.as_str(), "on") || str_eq(
                    d.name.as_str(),
                    "slot",
                ) || (is_component && str_eq(d.name.as_str(), "model"));
                assert(skipped == is_dir_skipped(*d, is_component));
                if !skipped {
                    proof {
                        if d.name@ == "model"@ {
                            assert(is_model_directive(attrs@[i as int]));
                        }
                    }
                    self.code_helper.indent();
                    self.generate_directive(buf, starting_tag, d);
                    self.code_helper.unindent();
                    proof {
                        let (t, st1) = gen_directive(env, at_level(sti, sti.level + 1), *starting_tag, *d);
                        assert(buf@.skip(after_open.len() as int) =~= before.skip(after_open.len() as int) + t);
                        assert(self.gen_state() == at_level(st1, sti.level));
                    }
                }
            }
            assert(buf@.take(after_open.len() as int) =~= after_open);
            i = i + 1;
        }
        let ghost items_end = buf@;
        assert(items_end =~= after_open + all.0);
        self.code_helper.newline(buf);
        CodeHelper::close_sq_bracket(buf);
        assert(buf@ =~= old(buf)@ + gen_directives(env, st0, *starting_tag, is_component).0);
    }

    /// Writes `const <ident> = <resolve_fn>("<name>")` for each entry, one per line.
    fn generate_resolves(&self, buf: &mut String, entries: &Vec<(String, String)>, resolve_fn: &str)
        ensures
            final(buf)@ == old(buf)@ + resolve_lines(
                pairs_view(entries@),
                resolve_fn@,
                self.code_helper.newline_text(),
            ),
    {
        let ghost pv = pairs_view(entries@);
        let ghost sep = self.code_helper.newline_text();
        let mut index: usize = 0;
        while index < entries.len()
            invariant
                pv == pairs_view(entries@),
                sep == self.code_helper.newline_text(),
                index <= entries.len(),
                buf@ == old(buf)@ + resolve_lines(pv.take(index as int), resolve_fn@, sep),
            decreases entries.len() - index,
        {
            let ghost before = buf@;
            if index > 0 {
                self.code_helper.newline(buf);
            }
            let entry = &entries[index];
            push_str(buf, "const ");
            push_str(buf, entry.1.as_str());
            push_str(buf, " = ");
            push_str(buf, resolve_fn);
            push_str(buf, "(\"");
            push_str(buf, entry.0.as_str());
            push_str(buf, "\")");
            proof {
                let t = pv.take(index + 1);
                assert(t.drop_last() =~= pv.take(index as int));
                assert(t.last() == pv[index as int]);
                assert(pv[index as int] == (entry.0@, entry.1@));
                if index == 0 {
                    assert(buf@ =~= before + resolve_line(pv[index as int], resolve_fn@));
                } else {
                    assert(buf@ =~= before + sep + resolve_line(pv[index as int], resolve_fn@));
                }
            }
            index = index + 1;
        }
        assert(pv.take(entries.len() as int) =~= pv);
    }

    /// Resolves the custom directives used by the template, one `const` per line.
    pub fn generate_directive_resolves(&mut self, buf: &mut String)
        ensures
            ({
                let (t, st) = gen_resolves(old(self).env(), old(self).gen_state(), old(self).gen_state().directives, VueImports::ResolveDirective);
                &&& final(buf)@ == old(buf)@ + t
                &&& final(self).gen_state() == st
            }),
            final(self).env() == old(self).env(),
            final(self).hoists == old(self).hoists,
            final(self).components == old(self).components,
            final(self).directives == old(self).directives,
    {
        if self.directives.len() == 0 {
            assert(old(buf)@ + Seq::<char>::empty() =~= old(buf)@);
            return;
        }
        let resolve_fn_str = self.get_and_add_import_str(VueImports::ResolveDirective);
        self.generate_resolves(buf, &self.directives, resolve_fn_str);
    }

    /// Resolves the components used by the template, one `const` per line.
    pub fn generate_components_string(&mut self, buf: &mut String)
        ensures
            ({
                let (t, st) = gen_resolves(old(self).env(), old(self).gen_state(), old(self).gen_state().components, VueImports::ResolveComponent);
                &&& final(buf)@ == old(buf)@ + t
                &&& final(self).gen_state() == st
            }),
            final(self).env() == old(self).env(),
            final(self).hoists == old(self).hoists,
            final(self).components == old(self).components,
            final(self).directives == old(self).directives,
    {
        if self.components.len() == 0 {
            assert(old(buf)@ + Seq::<char>::empty() =~= old(buf)@);
            return;
        }
        let resolve_fn_str = self.get_and_add_import_str(VueImports::ResolveComponent);
        self.generate_resolves(buf, &self.components, resolve_fn_str);
    }

    /// Writes the identifier of a component, registering it when first seen.
    pub fn add_to_components_and_write(&mut self, buf: &mut String, tag_name: &str)
        ensures
            ({
                let (ident, st) = crate::compiler::gen_spec::add_component(old(self).gen_state(), tag_name@);
                &&& final(buf)@ == old(buf)@ + ident
                &&& final(self).gen_state() == st
            }),
            final(self).env() == old(self).env(),
            final(self).hoists == old(self).hoists,
            final(self).directives == old(self).directives,
    {
        resolve_ident(&mut self.components, buf, tag_name, "_component_");
    }
}

} // verus!
