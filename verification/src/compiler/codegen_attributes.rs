//! Code generation of attributes, `v-bind` and `v-on`.
use vstd::prelude::*;

use crate::case::{all_ascii, ascii_dash_case_from, push_dash_case, spec_pascal_case};
use crate::compiler::codegen::CodegenContext;
use crate::compiler::gen_spec::{lemma_v_bind_key_quoting, 
    attr_item, attr_items, attrs_state, class_bind, class_regular, class_text, gen_attributes,
    gen_attributes_skipping, has_attributes_work_skipping, is_attribute_work, is_name_attr,
    is_on_with_modifiers, is_set_aside, object_text, q, quoted_list, spec_has_attributes_work,
    uses_modifiers, v_bind_text, v_on_text, with_import, GenState,
};
use crate::compiler::helper::CodeHelper;
use crate::compiler::imports::{import_name, VueImports};
use crate::parser::attributes::{opt_str_view, strings_view, HtmlAttribute};
use crate::text::{chars_of, push_char, push_str, str_eq};

verus! {

/// Check if there is work regarding attributes generation
/// Work is not needed if we don't have any Regular attributes, v-on/v-bind directives
pub fn has_attributes_work(attributes: &Vec<HtmlAttribute>) -> (r: bool)
    ensures
        r == spec_has_attributes_work(attributes@),
{
    let mut k: usize = 0;
    while k < attributes.len()
        invariant
            k <= attributes.len(),
            forall|j: int| 0 <= j < k ==> !is_attribute_work(#[trigger] attributes@[j]),
        decreases attributes.len() - k,
    {
        let work = match &attributes[k] {
            HtmlAttribute::Regular { .. } => true,
            HtmlAttribute::VDirective(d) => str_eq(d.name.as_str(), "on") || str_eq(d.name.as_str(), "bind"),
        };
        if work {
            assert(is_attribute_work(attributes@[k as int]));
            return true;
        }
        k = k + 1;
    }
    false
}

/// Whether there is attribute work when plain `name` attributes are left out (as `skip_name` says).
fn has_attributes_work_excluding(attributes: &Vec<HtmlAttribute>, skip_name: bool) -> (r: bool)
    ensures
        r == has_attributes_work_skipping(attributes@, skip_name),
{
    let mut k: usize = 0;
    while k < attributes.len()
        invariant
            k <= attributes.len(),
            forall|j: int|
                0 <= j < k ==> !(is_attribute_work(#[trigger] attributes@[j]) && !(skip_name
                    && is_name_attr(attributes@[j]))),
        decreases attributes.len() - k,
    {
        let work = match &attributes[k] {
            HtmlAttribute::Regular { name, .. } => !(skip_name && str_eq(name.as_str(), "name")),
            HtmlAttribute::VDirective(d) => str_eq(d.name.as_str(), "on") || str_eq(d.name.as_str(), "bind"),
        };
        if work {
            assert(is_attribute_work(attributes@[k as int]));
            return true;
        }
        k = k + 1;
    }
    false
}

/// Whether `s` holds the character `c`.
fn contains_char(s: &str, c: char) -> (r: bool)
    ensures
        r == s@.contains(c),
{
    let v = chars_of(s);
    let mut k: usize = 0;
    while k < v.len()
        invariant
            v@ == s@,
            k <= v.len(),
            forall|j: int| 0 <= j < k ==> v@[j] != c,
        decreases v.len() - k,
    {
        if v[k] == c {
            assert(s@[k as int] == c);
            return true;
        }
        k = k + 1;
    }
    false
}

/// `argument: value`, the argument quoted when it holds a dash; nothing without a value.
pub fn generate_v_bind_attr(buf: &mut String, argument: &str, value: Option<&str>)
    ensures
        final(buf)@ == old(buf)@ + v_bind_text(argument@, match value {
            Some(v) => Some(v@),
            None => None,
        }),
        value is Some && argument@.contains('-') ==> final(buf)@ == old(buf)@ + seq!['"'] + argument@ + seq!['"'] + ": "@
            + value->0@,
{
    proof {
        if let Some(v) = value {
            lemma_v_bind_key_quoting(argument@, v@);
        }
    }
    let Some(value_expression) = value else {
        assert(old(buf)@ + Seq::<char>::empty() =~= old(buf)@);
        return;
    };

    // For obvious reasons, attributes containing a dash need to be escaped
    let needs_quotes = contains_char(argument, '-');

    if needs_quotes {
        push_char(buf, '"');
    }
    push_str(buf, argument);
    if needs_quotes {
        push_char(buf, '"');
    }
    push_str(buf, ": ");
    push_str(buf, value_expression);
    assert(buf@ =~= old(buf)@ + v_bind_text(argument@, Some(value_expression@)));
}

/// Generates the code for a v-on listener
/// - buf is where to write the resulting code
/// - argument is the name of the event to listen to (e.g. `click` in `@click`)
/// - modifiers are event modifiers (e.g. `stop`, `prevent` in `@click.stop.prevent`)
/// - value is the value of the listener, typically an expression (e.g. `doSmth` in `@click="doSmth"`)
pub fn generate_v_on_attr(buf: &mut String, argument: &str, modifiers: &Vec<String>, value: Option<&str>)
    ensures
        final(buf)@ == old(buf)@ + v_on_text(argument@, strings_view(modifiers@), match value {
            Some(v) => Some(v@),
            None => None,
        }),
        all_ascii(argument@) ==> spec_pascal_case(argument@) == ascii_dash_case_from(argument@, 0, true),
{
    let ghost mods = strings_view(modifiers@);
    let ghost val = match value {
        Some(v) => Some(v@),
        None => None,
    };
    assert(mods.len() == modifiers.len());
    // Transform name of event to camelCase, e.g. `onCustomEventName`
    push_str(buf, "on");
    push_dash_case(argument, buf, true);
    push_str(buf, ": ");
    let ghost head = buf@;
    assert(head =~= old(buf)@ + "on"@ + spec_pascal_case(argument@) + ": "@);

    // Modifiers present: add function call
    if modifiers.len() > 0 {
        push_str(buf, CodegenContext::get_import_str(VueImports::WithModifiers));
        push_char(buf, '(');
    }
    let ghost with_call = buf@;
    proof {
        reveal_strlit("(");
    }
    assert(with_call =~= head + (if mods.len() > 0 {
        import_name(VueImports::WithModifiers) + "("@
    } else {
        Seq::empty()
    }));

    // Value may be absent, e.g. `@click.stop`
    if let Some(v) = value {
        push_str(buf, v)
    } else {
        push_str(buf, "() => {}")
    }
    let ghost with_value = buf@;
    assert(with_value =~= with_call + (match val {
        Some(v) => v,
        None => "() => {}"@,
    }));

    // Modifiers present: add them in a Js array of strings
    if modifiers.len() > 0 {
        push_str(buf, ", [");
        let ghost start = buf@;
        let mut index: usize = 0;
        while index < modifiers.len()
            invariant
                mods == strings_view(modifiers@),
                index <= modifiers.len(),
                modifiers.len() > 0,
                buf@ == start + quoted_list(mods.take(index as int)),
            decreases modifiers.len() - index,
        {
            let ghost before = buf@;
            if index > 0 {
                push_str(buf, ", ");
            }
            push_char(buf, '"');
            push_str(buf, modifiers[index].as_str());
            push_char(buf, '"');
            proof {
                let t = mods.take(index + 1);
                assert(t.drop_last() =~= mods.take(index as int));
                assert(t.last() == modifiers@[index as int]@);
                if index == 0 {
                    assert(buf@ =~= start + quoted_list(t));
                } else {
                    assert(buf@ =~= start + quoted_list(t));
                }
            }
            index = index + 1;
        }
        assert(mods.take(modifiers.len() as int) =~= mods);
        push_str(buf, "])");
        assert(buf@ =~= with_value + (", ["@ + quoted_list(mods) + "])"@));
    } else {
        assert(buf@ =~= with_value + Seq::<char>::empty());
    }
    assert(buf@ =~= old(buf)@ + v_on_text(argument@, mods, val));
}

/// One more attribute seen: a `v-on` with modifiers among the first `i + 1`
/// exactly when among the first `i` or at `i`.
proof fn lemma_uses_modifiers_step(attrs: Seq<HtmlAttribute>, i: int)
    requires
        0 <= i < attrs.len(),
    ensures
        uses_modifiers(attrs.take(i + 1)) == (uses_modifiers(attrs.take(i)) || is_on_with_modifiers(attrs[i])),
{
    let t = attrs.take(i + 1);
    let s = attrs.take(i);
    if uses_modifiers(t) {
        let k = choose|k: int| 0 <= k < t.len() && is_on_with_modifiers(#[trigger] t[k]);
        if k < i {
            assert(s[k] == t[k]);
        }
    }
    if uses_modifiers(s) {
        let k = choose|k: int| 0 <= k < s.len() && is_on_with_modifiers(#[trigger] s[k]);
        assert(t[k] == s[k]);
    }
    if is_on_with_modifiers(attrs[i]) {
        assert(t[i] == attrs[i]);
    }
}

/// The value of the last `:class` binding, itself optional.
fn find_class_bind(attributes: &Vec<HtmlAttribute>) -> (r: Option<&str>)
    ensures
        (match r {
            Some(v) => Some(v@),
            None => None,
        }) == class_bind(attributes@),
{
    let mut found: Option<&str> = None;
    let mut i: usize = 0;
    assert(attributes@.take(0) =~= Seq::<HtmlAttribute>::empty());
    while i < attributes.len()
        invariant
            i <= attributes.len(),
            (match found {
                Some(v) => Some(v@),
                None => None,
            }) == class_bind(attributes@.take(i as int)),
        decreases attributes.len() - i,
    {
        proof {
            let t = attributes@.take(i + 1);
            assert(t.drop_last() =~= attributes@.take(i as int));
            assert(t.last() == attributes@[i as int]);
            reveal_strlit("bind");
            reveal_strlit("class");
        }
        if let HtmlAttribute::VDirective(d) = &attributes[i] {
            if str_eq(d.name.as_str(), "bind") && str_eq(d.argument.as_str(), "class") {
                found = match &d.value {
                    Some(v) => Some(v.as_str()),
                    None => None,
                };
            }
        }
        i = i + 1;
    }
    assert(attributes@.take(attributes.len() as int) =~= attributes@);
    found
}

/// Writes one attribute, preceded by `, ` when something was written before it.
/// Gives whether something has been written so far.
fn generate_attribute_item(buf: &mut String, attribute: &HtmlAttribute, has_first: bool) -> (hf: bool)
    ensures
        final(buf)@ == old(buf)@ + (if has_first {
            ", "@
        } else {
            Seq::empty()
        }) + attr_item(*attribute).0,
        hf == (has_first || attr_item(*attribute).1),
{
    if has_first {
        CodeHelper::comma(buf);
    }
    let ghost mid = buf@;
    match attribute {
        HtmlAttribute::Regular { name, value } => {
            // For obvious reasons, attributes containing a dash need to be escaped
            let needs_quotes = CodeHelper::needs_escape(name.as_str());
            if needs_quotes {
                push_char(buf, '"');
            }
            push_str(buf, name.as_str());
            if needs_quotes {
                push_char(buf, '"');
            }
            push_str(buf, ": \"");
            push_str(buf, value.as_str());
            push_char(buf, '"');
            assert(buf@ =~= mid + attr_item(*attribute).0);
            true
        },
        HtmlAttribute::VDirective(d) => {
            let value = match &d.value {
                Some(v) => Some(v.as_str()),
                None => None,
            };
            assert(opt_str_view(d.value) == match value {
                Some(v) => Some(v@),
                None => None,
            });
            if str_eq(d.name.as_str(), "on") {
                // v-on directive, shortcut `@`, e.g. `@custom-event.modifier="value"`
                generate_v_on_attr(buf, d.argument.as_str(), &d.modifiers, value);
                true
            } else if str_eq(d.name.as_str(), "bind") {
                // v-bind directive, shortcut `:`, e.g. `:custom-prop="value"`
                generate_v_bind_attr(buf, d.argument.as_str(), value);
                true
            } else {
                assert(buf@ =~= mid + Seq::<char>::empty());
                has_first
            }
        },
    }
}

impl<'a> CodegenContext<'a> {
    /// `class: _normalizeClass(["regular", bound])`, preceded by `, ` when something
    /// was written before it.
    fn generate_class_attr(&mut self, buf: &mut String, regular_value: &str, bound_value: &str, has_first: bool)
        ensures
            final(buf)@ == old(buf)@ + (if has_first {
                ", "@
            } else {
                Seq::empty()
            }) + "class: "@ + import_name(VueImports::NormalizeClass) + "(["@ + q(regular_value@) + ", "@
                + bound_value@ + "])"@,
            final(self).gen_state() == with_import(old(self).gen_state(), VueImports::NormalizeClass),
            final(self).code_helper == old(self).code_helper,
            final(self).env() == old(self).env(),
            final(self).hoists == old(self).hoists,
    {
        if has_first {
            CodeHelper::comma(buf);
        }
        let ghost mid = buf@;
        push_str(buf, "class: ");
        let normalize = self.get_and_add_import_str(VueImports::NormalizeClass);
        push_str(buf, normalize);
        CodeHelper::open_paren(buf);
        CodeHelper::open_sq_bracket(buf);
        // First, include the content of a regular class
        CodeHelper::quoted(buf, regular_value);
        CodeHelper::comma(buf);
        push_str(buf, bound_value);
        CodeHelper::close_sq_bracket(buf);
        CodeHelper::close_paren(buf);
        proof {
            reveal_strlit("([");
            reveal_strlit("])");
        }
        assert(buf@ =~= mid + "class: "@ + import_name(VueImports::NormalizeClass) + "(["@ + q(regular_value@) + ", "@
            + bound_value@ + "])"@);
    }
}

/// The attributes that are not set aside, separated by `, `. Also gives whether
/// something was written, whether a `v-on` with modifiers was seen, and the last
/// plain `class` value.
#[verifier::spinoff_prover]
#[verifier::rlimit(50)]
fn generate_attribute_items<'b>(buf: &mut String, attributes: &'b Vec<HtmlAttribute>, skip_name: bool, class_bind_value: Option<&str>)
    -> (r: (bool, bool, Option<&'b str>))
    requires
        (match class_bind_value {
            Some(v) => Some(v@),
            None => None,
        }) == class_bind(attributes@),
    ensures
        ({
            let (items, hf) = attr_items(attributes@, skip_name, 0, false);
            &&& final(buf)@ == old(buf)@ + items
            &&& r.0 == hf
        }),
        r.1 == uses_modifiers(attributes@),
        (match r.2 {
            Some(v) => Some(v@),
            None => None,
        }) == class_regular(attributes@),
{
    let ghost after_open = buf@;
    let ghost all = attr_items(attributes@, skip_name, 0, false);
    let has_class_bind = class_bind_value.is_some();
    // For adding a comma `,`
    let mut has_first_element = false;
    // For `withModifiers` import
    let mut has_used_modifiers_import = false;
    // A plain `class` is merged with a `:class` binding when both are there
    let mut class_regular_value: Option<&str> = None;

    let mut i: usize = 0;
    assert(attributes@.take(0) =~= Seq::<HtmlAttribute>::empty());
    while i < attributes.len()
        invariant
            i <= attributes.len(),
            has_class_bind == (class_bind(attributes@) is Some),
            all == attr_items(attributes@, skip_name, 0, false),
            all.0 == buf@.skip(after_open.len() as int) + attr_items(attributes@, skip_name, i as int, has_first_element).0,
            all.1 == attr_items(attributes@, skip_name, i as int, has_first_element).1,
            after_open.len() <= buf@.len(),
            buf@.take(after_open.len() as int) == after_open,
            has_used_modifiers_import == uses_modifiers(attributes@.take(i as int)),
            (match class_regular_value {
                Some(v) => Some(v@),
                None => None,
            }) == class_regular(attributes@.take(i as int)),
        decreases attributes.len() - i,
    {
        let ghost before = buf@;
        let ghost hf0 = has_first_element;
        let attribute = &attributes[i];
        proof {
            let t = attributes@.take(i + 1);
            assert(t.drop_last() =~= attributes@.take(i as int));
            assert(t.last() == attributes@[i as int]);
            lemma_uses_modifiers_step(attributes@, i as int);
            reveal_strlit("on");
            reveal_strlit("bind");
            reveal_strlit("name");
            reveal_strlit("class");
        }
        let mut set_aside = true;
        match attribute {
            HtmlAttribute::Regular { name, value } => {
                if str_eq(name.as_str(), "class") {
                    class_regular_value = Some(value.as_str());
                    set_aside = has_class_bind;
                } else if !(skip_name && str_eq(name.as_str(), "name")) {
                    set_aside = false;
                }
            },
            HtmlAttribute::VDirective(d) => {
                let is_bind = str_eq(d.name.as_str(), "bind");
                if !(is_bind && (str_eq(d.argument.as_str(), "class") || str_eq(d.argument.as_str(), "style"))) {
                    set_aside = false;
                    if str_eq(d.name.as_str(), "on") && d.modifiers.len() > 0 {
                        has_used_modifiers_import = true;
                    }
                }
            },
        }
        assert(set_aside == is_set_aside(*attribute, skip_name, has_class_bind));
        if !set_aside {
            has_first_element = generate_attribute_item(buf, attribute, has_first_element);
        }
        proof {
            let now = attributes@[i as int];
            if !set_aside {
                let sep = if hf0 { ", "@ } else { Seq::<char>::empty() };
                assert(buf@.skip(after_open.len() as int) =~= before.skip(after_open.len() as int) + sep + attr_item(now).0);
            }
            assert(buf@.take(after_open.len() as int) =~= after_open);
        }
        i = i + 1;
    }
    proof {
        assert(attributes@.take(attributes.len() as int) =~= attributes@);
    }
    assert(buf@ =~= after_open + all.0);
    (has_first_element, has_used_modifiers_import, class_regular_value)
}

impl<'a> CodegenContext<'a> {
    /// Generates attributes as a Js object,
    /// where keys are attribute names and values are attribute values.
    ///
    /// - `generate_obj_shell` is for surrounding the resulting object in the Js {} object notation
    ///
    /// Gives `false` (and writes nothing) when there is nothing to generate.
    /// Plain `class` and `style` values stay where they are; a plain `class` next to a
    /// `:class` binding is merged with it at the end.
    pub fn generate_attributes(&mut self, buf: &mut String, attributes: &Vec<HtmlAttribute>, generate_obj_shell: bool) -> (r: bool)
        ensures
            ({
                let (w, t, st) = gen_attributes(old(self).gen_state(), attributes@, generate_obj_shell);
                &&& r == w
                &&& final(buf)@ == old(buf)@ + t
                &&& final(self).gen_state() == st
            }),
            final(self).code_helper == old(self).code_helper,
            !r ==> final(buf)@ == old(buf)@ && final(self).gen_state() == old(self).gen_state(),
            final(self).env() == old(self).env(),
            final(self).hoists == old(self).hoists,
    {
        self.generate_attributes_excluding(buf, attributes, generate_obj_shell, false)
    }

    /// [`Self::generate_attributes`], leaving out plain `name` attributes when `skip_name` holds.
    #[verifier::spinoff_prover]
    #[verifier::rlimit(50)]
    pub fn generate_attributes_excluding(&mut self, buf: &mut String, attributes: &Vec<HtmlAttribute>, generate_obj_shell: bool, skip_name: bool) -> (r: bool)
        ensures
            ({
                let (w, t, st) = gen_attributes_skipping(old(self).gen_state(), attributes@, generate_obj_shell, skip_name);
                &&& r == w
                &&& final(buf)@ == old(buf)@ + t
                &&& final(self).gen_state() == st
            }),
            final(self).code_helper == old(self).code_helper,
            !r ==> final(buf)@ == old(buf)@ && final(self).gen_state() == old(self).gen_state(),
            final(self).env() == old(self).env(),
            final(self).hoists == old(self).hoists,
    {
        proof {
            lemma_gen_attributes_skipping_unfold(self.gen_state(), attributes@, generate_obj_shell, skip_name);
        }
        // Work is not needed if we don't have any Regular attributes, v-on/v-bind directives
        if !has_attributes_work_excluding(attributes, skip_name) {
            assert(old(buf)@ + Seq::<char>::empty() =~= old(buf)@);
            return false;
        }
        let ghost st0 = self.gen_state();
        let ghost (items_t, hf) = attr_items(attributes@, skip_name, 0, false);

        // Start a Js object notation
        if generate_obj_shell {
            push_char(buf, '{');
        }
        let ghost after_open = buf@;

        let class_bind_value = find_class_bind(attributes);
        let (has_first_element, has_used_modifiers_import, class_regular_value) =
            generate_attribute_items(buf, attributes, skip_name, class_bind_value);
        let ghost items_end = buf@;

        // A plain `class` next to a `:class` binding: both go into `normalizeClass`
        match (class_regular_value, class_bind_value) {
            (Some(regular_value), Some(bound_value)) => {
                self.generate_class_attr(buf, regular_value, bound_value, has_first_element);
            },
            _ => {},
        }
        let ghost class_end = buf@;
        assert(class_end =~= items_end + class_text(attributes@, hf));

        // Close a Js object notation
        if generate_obj_shell {
            push_char(buf, '}');
        }

        // Add imports
        if has_used_modifiers_import {
            self.add_to_imports(VueImports::WithModifiers);
        }
        assert(self.gen_state() == attrs_state(st0, attributes@));
        assert(buf@ =~= old(buf)@ + object_text(items_t + class_text(attributes@, hf), generate_obj_shell));
        true
    }
}

/// What the attributes generate, one part after the other.
proof fn lemma_gen_attributes_skipping_unfold(st: GenState, attrs: Seq<HtmlAttribute>, shell: bool, skip_name: bool)
    ensures
        !has_attributes_work_skipping(attrs, skip_name) ==> gen_attributes_skipping(st, attrs, shell, skip_name)
            == (false, Seq::<char>::empty(), st),
        has_attributes_work_skipping(attrs, skip_name) ==> ({
            let (items_t, hf) = attr_items(attrs, skip_name, 0, false);
            gen_attributes_skipping(st, attrs, shell, skip_name)
                == (true, object_text(items_t + class_text(attrs, hf), shell), attrs_state(st, attrs))
        }),
{
    reveal(gen_attributes_skipping);
}

} // verus!
