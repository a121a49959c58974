//! What the code generator writes, as spec functions.
//!
//! Generation threads a state (`GenState`): the indentation level, the mask of
//! used `vue` helpers, and the components and directives resolved so far.
//! Each `gen_*` function gives the text written and the state afterwards.
use vstd::prelude::*;

use crate::case::spec_pascal_case;
use crate::compiler::helper::{join_entries, key_text, repeat};
use crate::compiler::imports::{import_bit, import_name, spec_imports_string, VueImports};
use crate::text::{spec_contains, spec_replace};
use crate::parser::attributes::{opt_str_view, strings_view, HtmlAttribute, VDirective};
use crate::parser::structs::{ElementNode, Node, StartingTag};
use crate::templates::ast_optimizer::spec_is_whitespace;

verus! {

/// The state threaded through code generation.
pub struct GenState {
    pub level: nat,
    pub imports: u64,
    pub components: Seq<(Seq<char>, Seq<char>)>,
    pub directives: Seq<(Seq<char>, Seq<char>)>,
}

/// How custom elements are recognised.
pub enum CustomSpec {
    NoCustom,
    TagName(Seq<char>),
    Pattern(Seq<char>),
}

/// What stays fixed during generation: the indentation unit and the custom-element setting.
pub struct Env {
    pub ind: Seq<char>,
    pub custom: CustomSpec,
}

/// Whether the regular expression `pattern` compiles (`regex::Regex::new`).
pub uninterp spec fn regex_is_valid(pattern: Seq<char>) -> bool;

/// Whether the regular expression `pattern` matches somewhere in `haystack` (`regex::Regex::is_match`).
pub uninterp spec fn regex_matches(pattern: Seq<char>, haystack: Seq<char>) -> bool;

/// The text of capture group `group` of the first match of `pattern` in `haystack`
/// (`regex::Regex::captures`, then `get(group)`): none without a match or when the
/// group takes no part in it.
pub uninterp spec fn regex_capture(pattern: Seq<char>, haystack: Seq<char>, group: nat) -> Option<Seq<char>>;

pub open spec fn nl(env: Env, level: nat) -> Seq<char> {
    seq!['\n'] + repeat(env.ind, level)
}

pub open spec fn q(s: Seq<char>) -> Seq<char> {
    seq!['"'] + s + seq!['"']
}

pub open spec fn with_import(st: GenState, v: VueImports) -> GenState {
    GenState { imports: st.imports | import_bit(v), ..st }
}

pub open spec fn at_level(st: GenState, level: nat) -> GenState {
    GenState { level, ..st }
}

// ---------------------------------------------------------------------------
// Names: the HTML tags, component and directive identifiers.
// ---------------------------------------------------------------------------

/// The tags of HTML (those that are never components).
pub open spec fn html_tags() -> Seq<Seq<char>> {
    seq![
        "html"@, "body"@, "base"@, "head"@, "link"@, "meta"@, "style"@, "title"@, "address"@,
        "article"@, "aside"@, "footer"@, "header"@, "hgroup"@, "h1"@, "h2"@, "h3"@, "h4"@, "h5"@,
        "h6"@, "nav"@, "section"@, "div"@, "dd"@, "dl"@, "dt"@, "figcaption"@, "figure"@,
        "picture"@, "hr"@, "img"@, "li"@, "main"@, "ol"@, "p"@, "pre"@, "ul"@, "a"@, "b"@,
        "abbr"@, "bdi"@, "bdo"@, "br"@, "cite"@, "code"@, "data"@, "dfn"@, "em"@, "i"@, "kbd"@,
        "mark"@, "q"@, "rp"@, "rt"@, "ruby"@, "s"@, "samp"@, "small"@, "span"@, "strong"@,
        "sub"@, "sup"@, "time"@, "u"@, "var"@, "wbr"@, "area"@, "audio"@, "map"@, "track"@,
        "video"@, "embed"@, "object"@, "param"@, "source"@, "canvas"@, "script"@, "noscript"@,
        "del"@, "ins"@, "caption"@, "col"@, "colgroup"@, "table"@, "thead"@, "tbody"@, "td"@,
        "th"@, "tr"@, "button"@, "datalist"@, "fieldset"@, "form"@, "input"@, "label"@,
        "legend"@, "meter"@, "optgroup"@, "option"@, "output"@, "progress"@, "select"@,
        "textarea"@, "details"@, "dialog"@, "menu"@, "summary"@, "template"@, "blockquote"@,
        "iframe"@, "tfoot"@
    ]
}

pub open spec fn spec_is_html_tag(tag: Seq<char>) -> bool {
    html_tags().contains(tag)
}

pub open spec fn spec_is_custom_element(env: Env, tag: Seq<char>) -> bool {
    match env.custom {
        CustomSpec::NoCustom => false,
        CustomSpec::TagName(s) => tag == s,
        CustomSpec::Pattern(p) => regex_matches(p, tag),
    }
}

/// A tag is a component unless it is an HTML tag or a custom element.
pub open spec fn spec_is_component(env: Env, tag: Seq<char>) -> bool {
    !spec_is_html_tag(tag) && !spec_is_custom_element(env, tag)
}

/// `s` with every `-` replaced by `_`.
pub open spec fn dash_to_underscore(s: Seq<char>) -> Seq<char> {
    s.map_values(|c: char| if c == '-' { '_' } else { c })
}

/// The value of the first entry of `m` whose key is `key`.
pub open spec fn find_entry(m: Seq<(Seq<char>, Seq<char>)>, key: Seq<char>) -> Option<Seq<char>>
    decreases m.len(),
{
    if m.len() == 0 {
        None
    } else if m[0].0 == key {
        Some(m[0].1)
    } else {
        find_entry(m.drop_first(), key)
    }
}

/// The identifier for a name, registered under `prefix` when first seen.
pub open spec fn resolve_name(m: Seq<(Seq<char>, Seq<char>)>, name: Seq<char>, prefix: Seq<char>) -> (Seq<char>, Seq<(Seq<char>, Seq<char>)>) {
    match find_entry(m, name) {
        Some(ident) => (ident, m),
        None => {
            let ident = prefix + dash_to_underscore(name);
            (ident, m.push((name, ident)))
        },
    }
}

/// When no key among the first `k` entries is `key`, looking it up skips them.
pub proof fn lemma_find_entry_skip(m: Seq<(Seq<char>, Seq<char>)>, key: Seq<char>, k: int)
    requires
        0 <= k <= m.len(),
        forall|j: int| 0 <= j < k ==> (#[trigger] m[j]).0 != key,
    ensures
        find_entry(m, key) == find_entry(m.skip(k), key),
    decreases k,
{
    if k > 0 {
        assert(m.drop_first().skip(k - 1) =~= m.skip(k));
        assert forall|j: int| 0 <= j < k - 1 implies (#[trigger] m.drop_first()[j]).0 != key by {
            assert(m.drop_first()[j] == m[j + 1]);
        }
        lemma_find_entry_skip(m.drop_first(), key, k - 1);
    } else {
        assert(m.skip(0) =~= m);
    }
}

/// `const <ident> = <resolve_fn>("<name>")`
pub open spec fn resolve_line(entry: (Seq<char>, Seq<char>), resolve_fn: Seq<char>) -> Seq<char> {
    "const "@ + entry.1 + " = "@ + resolve_fn + "(\""@ + entry.0 + "\")"@
}

/// One resolve line per entry, separated by `sep`.
pub open spec fn resolve_lines(entries: Seq<(Seq<char>, Seq<char>)>, resolve_fn: Seq<char>, sep: Seq<char>) -> Seq<char>
    decreases entries.len(),
{
    if entries.len() == 0 {
        Seq::empty()
    } else if entries.len() == 1 {
        resolve_line(entries[0], resolve_fn)
    } else {
        resolve_lines(entries.drop_last(), resolve_fn, sep) + sep + resolve_line(entries.last(), resolve_fn)
    }
}

/// The resolution of the registered components or directives through the helper
/// `helper`; nothing (and no import) when none is registered.
pub open spec fn gen_resolves(env: Env, st: GenState, entries: Seq<(Seq<char>, Seq<char>)>, helper: VueImports) -> (Seq<char>, GenState) {
    if entries.len() == 0 {
        (Seq::empty(), st)
    } else {
        (resolve_lines(entries, import_name(helper), nl(env, st.level)), with_import(st, helper))
    }
}

/// Looking a key up after an entry was appended: the earlier entries win.
pub proof fn lemma_find_entry_push(m: Seq<(Seq<char>, Seq<char>)>, e: (Seq<char>, Seq<char>), key: Seq<char>)
    ensures
        find_entry(m.push(e), key) == match find_entry(m, key) {
            Some(v) => Some(v),
            None => if e.0 == key {
                Some(e.1)
            } else {
                None
            },
        },
    decreases m.len(),
{
    if m.len() > 0 {
        assert(m.push(e)[0] == m[0]);
        assert(m.push(e).drop_first() =~= m.drop_first().push(e));
        lemma_find_entry_push(m.drop_first(), e, key);
        if m[0].0 != key {
            assert(find_entry(m, key) == find_entry(m.drop_first(), key));
            assert(find_entry(m.push(e), key) == find_entry(m.push(e).drop_first(), key));
        }
    } else {
        assert(m.push(e)[0] == e);
        assert(m.push(e).drop_first() =~= Seq::<(Seq<char>, Seq<char>)>::empty());
        assert(find_entry(m, key) is None);
        assert(find_entry(Seq::<(Seq<char>, Seq<char>)>::empty(), key) is None);
    }
}

/// A name is registered once: resolving it again gives the same identifier and
/// leaves the registrations as they are.
pub proof fn lemma_resolve_name_idempotent(m: Seq<(Seq<char>, Seq<char>)>, name: Seq<char>, prefix: Seq<char>)
    ensures
        resolve_name(resolve_name(m, name, prefix).1, name, prefix) == resolve_name(m, name, prefix),
{
    let (ident, m1) = resolve_name(m, name, prefix);
    if find_entry(m, name) is None {
        lemma_find_entry_push(m, (name, ident), name);
    }
}

/// Writing a component twice registers it once, under one identifier
/// (`_component_` followed by its name with `-` replaced by `_`).
pub proof fn lemma_add_component_idempotent(st: GenState, tag: Seq<char>)
    ensures
        add_component(add_component(st, tag).1, tag) == add_component(st, tag),
        find_entry(st.components, tag) is None ==> add_component(st, tag).0 == "_component_"@
            + dash_to_underscore(tag),
{
    lemma_resolve_name_idempotent(st.components, tag, "_component_"@);
}

pub open spec fn add_component(st: GenState, tag: Seq<char>) -> (Seq<char>, GenState) {
    let (ident, m) = resolve_name(st.components, tag, "_component_"@);
    (ident, GenState { components: m, ..st })
}

pub open spec fn add_directive(st: GenState, name: Seq<char>) -> (Seq<char>, GenState) {
    let (ident, m) = resolve_name(st.directives, name, "_directive_"@);
    (ident, GenState { directives: m, ..st })
}

// ---------------------------------------------------------------------------
// Attributes.
// ---------------------------------------------------------------------------

pub open spec fn spec_has_attributes_work(attributes: Seq<HtmlAttribute>) -> bool {
    exists|k: int| 0 <= k < attributes.len() && is_attribute_work(#[trigger] attributes[k])
}

/// As [`spec_has_attributes_work`], where a plain `name` attribute does not count
/// when `skip_name` holds (a `<slot>` passes its name separately).
pub open spec fn has_attributes_work_skipping(attributes: Seq<HtmlAttribute>, skip_name: bool) -> bool {
    exists|k: int|
        0 <= k < attributes.len() && is_attribute_work(#[trigger] attributes[k]) && !(skip_name
            && is_name_attr(attributes[k]))
}

pub open spec fn is_name_attr(a: HtmlAttribute) -> bool {
    a matches HtmlAttribute::Regular { name, .. } && name@ == "name"@
}

/// Plain attributes and `v-on`/`v-bind` directives need generating.
pub open spec fn is_attribute_work(a: HtmlAttribute) -> bool {
    match a {
        HtmlAttribute::Regular { .. } => true,
        HtmlAttribute::VDirective(d) => d.name@ == "on"@ || d.name@ == "bind"@,
    }
}

pub open spec fn is_class_regular(a: HtmlAttribute) -> bool {
    a matches HtmlAttribute::Regular { name, .. } && name@ == "class"@
}

pub open spec fn is_class_bind(a: HtmlAttribute) -> bool {
    a matches HtmlAttribute::VDirective(d) && d.name@ == "bind"@ && d.argument@ == "class"@
}

pub open spec fn is_style_bind(a: HtmlAttribute) -> bool {
    a matches HtmlAttribute::VDirective(d) && d.name@ == "bind"@ && d.argument@ == "style"@
}

/// Attributes written elsewhere or not at all: the `:class` and `:style` bindings, a
/// plain `class` when a valued `:class` is there too (the two are merged), and plain
/// `name` attributes when `skip_name` holds.
///
/// This generator writes no code for a `:class` binding without a plain `class`, nor
/// for any `:style` binding: both are left out of the attributes object. Only the
/// merge of a plain `class` with a `:class` binding is generated.
pub open spec fn is_set_aside(a: HtmlAttribute, skip_name: bool, has_class_bind: bool) -> bool {
    (is_class_regular(a) && has_class_bind) || is_class_bind(a) || is_style_bind(a) || (skip_name
        && is_name_attr(a))
}

/// The value of the last plain `class` attribute.
pub open spec fn class_regular(attrs: Seq<HtmlAttribute>) -> Option<Seq<char>>
    decreases attrs.len(),
{
    if attrs.len() == 0 {
        None
    } else {
        match attrs.last() {
            HtmlAttribute::Regular { name, value } if name@ == "class"@ => Some(value@),
            _ => class_regular(attrs.drop_last()),
        }
    }
}

/// The value of the last `:class` binding (itself optional).
pub open spec fn class_bind(attrs: Seq<HtmlAttribute>) -> Option<Seq<char>>
    decreases attrs.len(),
{
    if attrs.len() == 0 {
        None
    } else {
        match attrs.last() {
            HtmlAttribute::VDirective(d) if d.name@ == "bind"@ && d.argument@ == "class"@ => opt_str_view(d.value),
            _ => class_bind(attrs.drop_last()),
        }
    }
}

/// Whether a `v-on` directive with modifiers is among the attributes.
pub open spec fn uses_modifiers(attrs: Seq<HtmlAttribute>) -> bool {
    exists|k: int| 0 <= k < attrs.len() && is_on_with_modifiers(#[trigger] attrs[k])
}

pub open spec fn is_on_with_modifiers(a: HtmlAttribute) -> bool {
    a matches HtmlAttribute::VDirective(d) && d.name@ == "on"@ && d.modifiers@.len() > 0
}

/// `:arg: value`, the argument quoted when it holds a `-`; nothing without a value.
pub open spec fn v_bind_text(argument: Seq<char>, value: Option<Seq<char>>) -> Seq<char> {
    match value {
        None => Seq::empty(),
        Some(v) => (if argument.contains('-') {
            q(argument)
        } else {
            argument
        }) + ": "@ + v,
    }
}

/// The modifiers as a list of quoted strings separated by `, `.
pub open spec fn quoted_list(mods: Seq<Seq<char>>) -> Seq<char>
    decreases mods.len(),
{
    if mods.len() == 0 {
        Seq::empty()
    } else if mods.len() == 1 {
        q(mods[0])
    } else {
        quoted_list(mods.drop_last()) + ", "@ + q(mods.last())
    }
}

/// `onEventName: value`, wrapped in `_withModifiers(value, ["m", ...])` when there are modifiers.
pub open spec fn v_on_text(argument: Seq<char>, modifiers: Seq<Seq<char>>, value: Option<Seq<char>>) -> Seq<char> {
    let has_mods = modifiers.len() > 0;
    "on"@ + spec_pascal_case(argument) + ": "@ + (if has_mods {
        import_name(VueImports::WithModifiers) + "("@
    } else {
        Seq::empty()
    }) + (match value {
        Some(v) => v,
        None => "() => {}"@,
    }) + (if has_mods {
        ", ["@ + quoted_list(modifiers) + "])"@
    } else {
        Seq::empty()
    })
}

/// The text of one attribute (not set aside), and whether it counts as an element written.
pub open spec fn attr_item(a: HtmlAttribute) -> (Seq<char>, bool) {
    match a {
        HtmlAttribute::Regular { name, value } => (key_text(name@) + ": \""@ + value@ + seq!['"'], true),
        HtmlAttribute::VDirective(d) => if d.name@ == "on"@ {
            (v_on_text(d.argument@, strings_view(d.modifiers@), opt_str_view(d.value)), true)
        } else if d.name@ == "bind"@ {
            (v_bind_text(d.argument@, opt_str_view(d.value)), true)
        } else {
            (Seq::empty(), false)
        },
    }
}

/// The attributes from `i` on: each attribute that is not set aside is preceded by
/// `, ` once something was written. Also gives whether something was written.
pub open spec fn attr_items(attrs: Seq<HtmlAttribute>, skip_name: bool, i: int, has_first: bool) -> (Seq<char>, bool)
    decreases attrs.len() - i,
{
    if i < 0 || i >= attrs.len() {
        (Seq::empty(), has_first)
    } else if is_set_aside(attrs[i], skip_name, class_bind(attrs) is Some) {
        attr_items(attrs, skip_name, i + 1, has_first)
    } else {
        let sep = if has_first {
            ", "@
        } else {
            Seq::empty()
        };
        let (text, written) = attr_item(attrs[i]);
        let (rest, hf) = attr_items(attrs, skip_name, i + 1, has_first || written);
        (sep + text + rest, hf)
    }
}

/// The attributes as a Js object (or its entries when `shell` is false).
/// Gives whether there was anything to generate, the text and the state afterwards.
pub open spec fn gen_attributes(st: GenState, attrs: Seq<HtmlAttribute>, shell: bool) -> (bool, Seq<char>, GenState) {
    gen_attributes_skipping(st, attrs, shell, false)
}

/// As [`gen_attributes`], leaving out plain `name` attributes when `skip_name` holds.
#[verifier::opaque]
pub open spec fn gen_attributes_skipping(st: GenState, attrs: Seq<HtmlAttribute>, shell: bool, skip_name: bool) -> (bool, Seq<char>, GenState) {
    if !has_attributes_work_skipping(attrs, skip_name) {
        (false, Seq::empty(), st)
    } else {
        let (items, hf) = attr_items(attrs, skip_name, 0, false);
        (true, object_text(items + class_text(attrs, hf), shell), attrs_state(st, attrs))
    }
}

/// The entries inside `{` and `}` when `shell` holds, alone otherwise.
pub open spec fn object_text(entries: Seq<char>, shell: bool) -> Seq<char> {
    if shell {
        seq!['{'] + entries + seq!['}']
    } else {
        entries
    }
}

/// `class: _normalizeClass(["regular", bound])` when there are both a plain `class`
/// and a valued `:class` binding, preceded by `, ` when something came before.
pub open spec fn class_text(attrs: Seq<HtmlAttribute>, has_first: bool) -> Seq<char> {
    match (class_regular(attrs), class_bind(attrs)) {
        (Some(r), Some(b)) => (if has_first {
            ", "@
        } else {
            Seq::empty()
        }) + "class: "@ + import_name(VueImports::NormalizeClass) + "(["@ + q(r) + ", "@ + b + "])"@,
        _ => Seq::empty(),
    }
}

/// The imports that generating the attributes adds.
pub open spec fn attrs_state(st: GenState, attrs: Seq<HtmlAttribute>) -> GenState {
    let st2 = match (class_regular(attrs), class_bind(attrs)) {
        (Some(r), Some(b)) => with_import(st, VueImports::NormalizeClass),
        _ => st,
    };
    if uses_modifiers(attrs) {
        with_import(st2, VueImports::WithModifiers)
    } else {
        st2
    }
}

// ---------------------------------------------------------------------------
// Directives.
// ---------------------------------------------------------------------------

/// Whether `_withDirectives` wraps an element or component: elements need it for
/// `v-model` and for custom directives, components for custom directives only
/// (every directive other than `bind`, `on`, `slot` and `model` counts as custom).
pub open spec fn spec_needs_wrapper(attrs: Seq<HtmlAttribute>, is_component: bool) -> bool {
    exists|k: int| 0 <= k < attrs.len() && needs_wrapper_for(#[trigger] attrs[k], is_component)
}

pub open spec fn needs_wrapper_for(a: HtmlAttribute, is_component: bool) -> bool {
    match a {
        HtmlAttribute::VDirective(d) => if d.name@ == "model"@ {
            !is_component
        } else {
            d.name@ != "bind"@ && d.name@ != "on"@ && d.name@ != "slot"@
        },
        _ => false,
    }
}

/// Directives that `_withDirectives` does not list.
pub open spec fn is_dir_skipped(d: VDirective, is_component: bool) -> bool {
    d.name@ == "bind"@ || d.name@ == "on"@ || d.name@ == "slot"@ || (is_component && d.name@ == "model"@)
}

/// The value of the first plain `type` attribute, `text` without one.
pub open spec fn input_type(attrs: Seq<HtmlAttribute>) -> Seq<char>
    decreases attrs.len(),
{
    if attrs.len() == 0 {
        "text"@
    } else {
        match attrs[0] {
            HtmlAttribute::Regular { name, value } if name@ == "type"@ => value@,
            _ => input_type(attrs.drop_first()),
        }
    }
}

/// Elements that support `v-model`.
pub open spec fn supports_v_model(tag: Seq<char>) -> bool {
    tag == "input"@ || tag == "textarea"@ || tag == "select"@
}

/// The runtime directive of `v-model` on an element.
pub open spec fn vmodel_import(tag: StartingTag) -> VueImports {
    if tag.tag_name@ == "input"@ {
        let t = input_type(tag.attributes@);
        if t == "checkbox"@ {
            VueImports::VModelCheckbox
        } else if t == "radio"@ {
            VueImports::VModelRadio
        } else {
            VueImports::VModelText
        }
    } else if tag.tag_name@ == "textarea"@ {
        VueImports::VModelText
    } else {
        VueImports::VModelSelect
    }
}

/// `{ m1: true, m2: true }`, on several lines when there is more than one modifier.
pub open spec fn modifiers_obj(env: Env, level: nat, mods: Seq<Seq<char>>) -> Seq<char> {
    let multi = mods.len() > 1;
    let sep = if multi {
        seq![','] + nl(env, level + 1)
    } else {
        ", "@
    };
    let entries = mods.map_values(|m: Seq<char>| (m, "true"@));
    seq!['{'] + (if multi {
        nl(env, level + 1)
    } else {
        Seq::empty()
    }) + join_entries(entries, sep) + (if multi {
        nl(env, level)
    } else {
        Seq::empty()
    }) + seq!['}']
}

/// What follows the identifier of a directive: its value, argument and modifiers,
/// each on a line of its own at `l2` when the directive has an argument or modifiers.
#[verifier::opaque]
pub open spec fn directive_tail(env: Env, l2: nat, d: VDirective) -> Seq<char> {
    let has_arg = d.argument@.len() > 0;
    let has_mods = d.modifiers@.len() > 0;
    let am = has_arg || has_mods;
    let cn = seq![','] + nl(env, l2);
    let value_part = match opt_str_view(d.value) {
        Some(v) => (if am {
            cn
        } else {
            ", "@
        }) + "_ctx."@ + v,
        None => if am {
            cn + "void 0"@
        } else {
            Seq::empty()
        },
    };
    let arg_part = if am {
        cn + (if has_arg {
            q(d.argument@)
        } else {
            "void 0"@
        })
    } else {
        Seq::empty()
    };
    let mods_part = if has_mods {
        cn + modifiers_obj(env, l2, strings_view(d.modifiers@))
    } else {
        Seq::empty()
    };
    value_part + arg_part + mods_part
}

/// The identifier of a directive: a `v-model` runtime directive, or the registered
/// identifier of a custom directive.
#[verifier::opaque]
pub open spec fn directive_ident(st: GenState, tag: StartingTag, d: VDirective) -> (Seq<char>, GenState) {
    if d.name@ == "model"@ {
        (import_name(vmodel_import(tag)), with_import(st, vmodel_import(tag)))
    } else {
        add_directive(st, d.name@)
    }
}

/// Writing the identifier of a directive keeps the level.
pub proof fn lemma_directive_ident_level(st: GenState, tag: StartingTag, d: VDirective, n: nat)
    ensures
        directive_ident(st, tag, d).1.level == st.level,
        directive_ident(at_level(st, n), tag, d) == (directive_ident(st, tag, d).0, at_level(
            directive_ident(st, tag, d).1,
            n,
        )),
{
    reveal(directive_ident);
}

/// `[ident, value, arg, modifiers]` for one directive, written at `st.level`;
/// the array spans several lines when the directive has an argument or modifiers.
pub open spec fn gen_directive(env: Env, st: GenState, tag: StartingTag, d: VDirective) -> (Seq<char>, GenState) {
    let l = st.level;
    let am = d.argument@.len() > 0 || d.modifiers@.len() > 0;
    let (ident, st1) = directive_ident(st, tag, d);
    (nl(env, l) + seq!['['] + (if am {
        nl(env, l + 1)
    } else {
        Seq::empty()
    }) + ident + directive_tail(env, l + 1, d) + (if am {
        nl(env, l)
    } else {
        Seq::empty()
    }) + seq![']'], st1)
}

/// The directives from attribute `i` on, each written one level deeper than `st.level`.
pub open spec fn gen_directives_from(env: Env, st: GenState, tag: StartingTag, i: int, is_component: bool) -> (Seq<char>, GenState)
    decreases tag.attributes@.len() - i,
{
    if i < 0 || i >= tag.attributes@.len() {
        (Seq::empty(), st)
    } else {
        match tag.attributes@[i] {
            HtmlAttribute::VDirective(d) if !is_dir_skipped(d, is_component) => {
                let (t, st1) = gen_directive(env, at_level(st, st.level + 1), tag, d);
                let (rest, st2) = gen_directives_from(env, at_level(st1, st.level), tag, i + 1, is_component);
                (t + rest, st2)
            },
            _ => gen_directives_from(env, st, tag, i + 1, is_component),
        }
    }
}

/// The Js array of the directives of a tag.
#[verifier::opaque]
pub open spec fn gen_directives(env: Env, st: GenState, tag: StartingTag, is_component: bool) -> (Seq<char>, GenState) {
    let (t, st1) = gen_directives_from(env, st, tag, 0, is_component);
    (seq!['['] + t + nl(env, st.level) + seq![']'], st1)
}

// ---------------------------------------------------------------------------
// Text.
// ---------------------------------------------------------------------------

pub open spec fn is_text_like(n: Node) -> bool {
    n is TextNode || n is DynamicExpression
}

/// `"` becomes `\"`.
pub open spec fn escape_quotes(s: Seq<char>) -> Seq<char>
    decreases s.len(),
{
    if s.len() == 0 {
        Seq::empty()
    } else {
        escape_quotes(s.drop_last()) + (if s.last() == '"' {
            seq!['\\', '"']
        } else {
            seq![s.last()]
        })
    }
}

/// The index of the first non-whitespace character, or the length.
pub open spec fn trim_start_index(s: Seq<char>, i: int) -> int
    decreases s.len() - i,
{
    if 0 <= i < s.len() && spec_is_whitespace(s[i]) {
        trim_start_index(s, i + 1)
    } else {
        i
    }
}

/// The index just past the last non-whitespace character at or after `lo`.
pub open spec fn trim_end_index(s: Seq<char>, lo: int, j: int) -> int
    decreases j - lo,
{
    if lo < j && j <= s.len() && spec_is_whitespace(s[j - 1]) {
        trim_end_index(s, lo, j - 1)
    } else {
        j
    }
}

/// `s` without its leading and trailing whitespace.
pub open spec fn spec_trim(s: Seq<char>) -> Seq<char> {
    let lo = trim_start_index(s, 0);
    s.subrange(lo, trim_end_index(s, lo, s.len() as int))
}

/// Raw text as a Js string: quotes escaped, surrounding whitespace trimmed and
/// replaced by one space on each side where there was some.
#[verifier::opaque]
pub open spec fn text_literal(v: Seq<char>) -> Seq<char> {
    let e = escape_quotes(v);
    let t = spec_trim(e);
    let start_ws = e.len() > 0 && spec_is_whitespace(e[0]);
    let end_ws = e.len() > 0 && spec_is_whitespace(e.last());
    seq!['"'] + (if start_ws {
        seq![' ']
    } else {
        Seq::empty()
    }) + t + (if end_ws && t.len() > 0 {
        seq![' ']
    } else {
        Seq::empty()
    }) + seq!['"']
}

/// The text nodes from `i` on, joined by ` + `; dynamic expressions go through `_toDisplayString`.
pub open spec fn text_items(st: GenState, nodes: Seq<Node>, i: int, had_first: bool) -> (Seq<char>, GenState)
    decreases nodes.len() - i,
{
    if i < 0 || i >= nodes.len() {
        (Seq::empty(), st)
    } else {
        let sep = if had_first {
            " + "@
        } else {
            Seq::empty()
        };
        match nodes[i] {
            Node::TextNode(v) => {
                let (rest, st1) = text_items(st, nodes, i + 1, true);
                (sep + text_literal(v@) + rest, st1)
            },
            Node::DynamicExpression { value, .. } => {
                let (rest, st1) = text_items(with_import(st, VueImports::ToDisplayString), nodes, i + 1, true);
                (sep + import_name(VueImports::ToDisplayString) + seq!['('] + value@ + seq![')'] + rest, st1)
            },
            _ => text_items(st, nodes, i + 1, had_first),
        }
    }
}

/// A run of text nodes, wrapped in `_createTextVNode(..., 1 /* TEXT */)` when asked.
#[verifier::opaque]
pub open spec fn gen_text_run(st: GenState, nodes: Seq<Node>, surround: bool) -> (Seq<char>, GenState) {
    let st1 = if surround {
        with_import(st, VueImports::CreateTextVNode)
    } else {
        st
    };
    let (items, st2) = text_items(st1, nodes, 0, false);
    ((if surround {
        import_name(VueImports::CreateTextVNode) + seq!['(']
    } else {
        Seq::empty()
    }) + items + (if surround {
        ", 1 /* TEXT */)"@
    } else {
        Seq::empty()
    }), st2)
}

/// The end of the run of text nodes that starts at `i`.
pub open spec fn text_run_end(c: Seq<Node>, i: int) -> int
    decreases c.len() - i,
{
    if 0 <= i < c.len() && is_text_like(c[i]) {
        text_run_end(c, i + 1)
    } else {
        i
    }
}

pub open spec fn all_text(c: Seq<Node>) -> bool {
    forall|k: int| 0 <= k < c.len() ==> is_text_like(#[trigger] c[k])
}

// ---------------------------------------------------------------------------
// Slots.
// ---------------------------------------------------------------------------

pub open spec fn is_named_slot_directive(a: HtmlAttribute) -> bool {
    a matches HtmlAttribute::VDirective(d) && d.name@ == "slot"@ && d.argument@ != ""@
        && d.argument@ != "default"@
}

/// Elements, text and `<template>` without a named `v-slot` belong to the default slot.
pub open spec fn is_from_default_slot(n: Node) -> bool {
    match n {
        Node::ElementNode(e) => e.starting_tag.tag_name@ != "template"@ || !(exists|k: int|
            0 <= k < e.starting_tag.attributes@.len() && is_named_slot_directive(
                #[trigger] e.starting_tag.attributes@[k],
            )),
        _ => true,
    }
}

/// The index of the first `v-slot` directive at or after `i`.
pub open spec fn first_slot_directive(attrs: Seq<HtmlAttribute>, i: int) -> int
    decreases attrs.len() - i,
{
    if 0 <= i < attrs.len() && !(attrs[i] matches HtmlAttribute::VDirective(d) && d.name@ == "slot"@) {
        first_slot_directive(attrs, i + 1)
    } else {
        i
    }
}

/// `"name": _withCtx((props) => ` (or `[_ctx.name]: ...` for a dynamic slot name)
/// from the first `v-slot` directive; nothing without one.
pub open spec fn slot_header(st: GenState, attrs: Seq<HtmlAttribute>) -> (Seq<char>, GenState) {
    let k = first_slot_directive(attrs, 0);
    if 0 <= k < attrs.len() {
        match attrs[k] {
            HtmlAttribute::VDirective(d) => ((if d.is_dynamic_slot {
                "[_ctx."@ + d.argument@ + seq![']']
            } else {
                q(d.argument@)
            }) + ": "@ + import_name(VueImports::WithCtx) + seq!['('] + seq!['('] + (match opt_str_view(
                d.value,
            ) {
                Some(v) => v,
                None => Seq::empty(),
            }) + seq![')'] + " => "@, with_import(st, VueImports::WithCtx)),
            _ => (Seq::empty(), st),
        }
    } else {
        (Seq::empty(), st)
    }
}

// ---------------------------------------------------------------------------
// Nodes, children and slots, by mutual recursion on the tree.
// ---------------------------------------------------------------------------

/// The value of the first plain attribute called `key`.
pub open spec fn first_regular_value(attrs: Seq<HtmlAttribute>, key: Seq<char>) -> Option<Seq<char>>
    decreases attrs.len(),
{
    if attrs.len() == 0 {
        None
    } else {
        match attrs[0] {
            HtmlAttribute::Regular { name, value } if name@ == key => Some(value@),
            _ => first_regular_value(attrs.drop_first(), key),
        }
    }
}

/// The code of a node: `<slot>` becomes a `_renderSlot` call, components become
/// component vnodes and other elements element vnodes; other nodes give nothing, and `false`.
#[verifier::opaque]
pub open spec fn gen_node(env: Env, st: GenState, node: Node, wrap: bool) -> (bool, Seq<char>, GenState)
    decreases node, 1int,
{
    match node {
        Node::ElementNode(e) => {
            proof {
                assert(decreases_to!(node => node->ElementNode_0));
            }
            let (t, st1) = if e.starting_tag.tag_name@ == "slot"@ {
                gen_slot_outlet(env, st, e)
            } else if spec_is_component(env, e.starting_tag.tag_name@) {
                gen_component_vnode(env, st, e)
            } else {
                gen_element_vnode(env, st, e, wrap)
            };
            (true, t, st1)
        },
        _ => (false, Seq::empty(), st),
    }
}

/// `_renderSlot(_ctx.$slots, "name", { attributes }, () => children)`; only the
/// name when there are no other attributes or no children.
#[verifier::opaque]
pub open spec fn gen_slot_outlet(env: Env, st: GenState, e: ElementNode) -> (Seq<char>, GenState)
    decreases e, 0int,
{
    let tag = e.starting_tag;
    let st1 = with_import(st, VueImports::RenderSlot);
    let name = first_regular_value(tag.attributes@, "name"@);
    let head = import_name(VueImports::RenderSlot) + seq!['('] + "_ctx.$slots, "@ + q(
        match name {
            Some(n) => n,
            None => "default"@,
        },
    );
    let has_attributes = tag.attributes@.len() > (if name is Some {
        1int
    } else {
        0int
    });
    if !has_attributes || e.children@.len() == 0 {
        (head + seq![')'], st1)
    } else {
        let (_, at, st2) = gen_attributes_skipping(st1, tag.attributes@, true, true);
        proof {
            assert(decreases_to!(e => e.children));
        }
        let (_, ct, st3) = gen_children(env, st2, e.children@, false);
        (head + ", "@ + at + ", "@ + "() => "@ + ct + seq![')'], st3)
    }
}

/// `_createVNode(_component_x, attributes or null, slots)`.
#[verifier::opaque]
pub open spec fn gen_component_vnode(env: Env, st: GenState, e: ElementNode) -> (Seq<char>, GenState)
    decreases e, 0int,
{
    let tag = e.starting_tag;
    let st1 = with_import(st, VueImports::CreateVNode);
    let (ident, st2) = add_component(st1, tag.tag_name@);
    let (aw, at, st3) = gen_attributes(st2, tag.attributes@, true);
    let attrs_text = if aw {
        at
    } else {
        "null"@
    };
    proof {
        assert(decreases_to!(e => e.children));
    }
    let (slots, st4) = gen_slots(env, st3, e.children@);
    (import_name(VueImports::CreateVNode) + seq!['('] + ident + ", "@ + attrs_text + ", "@ + slots
        + seq![')'], st4)
}

/// `_createElementVNode("tag", attributes or null, children or null, -1 /* HOISTED */)`,
/// as a block when `wrap` holds, and inside `_withDirectives(..., [directives])` when
/// the element has directives for it.
#[verifier::opaque]
pub open spec fn gen_element_vnode(env: Env, st: GenState, e: ElementNode, wrap: bool) -> (Seq<char>, GenState)
    decreases e, 1int,
{
    let tag = e.starting_tag;
    let nd = spec_needs_wrapper(tag.attributes@, false);
    let (prefix, st2) = element_prefix(st, nd, wrap);
    let (args, st4) = gen_element_args(env, st2, e);
    let (dt, st5) = if nd {
        gen_directives(env, st4, tag, false)
    } else {
        (Seq::empty(), st4)
    };
    (prefix + args + element_suffix(wrap) + (if nd {
        ", "@ + dt + seq![')']
    } else {
        Seq::empty()
    }), st5)
}

/// `_withDirectives(` when asked, then `_createElementVNode(`, or the block form
/// `(_openBlock(), _createElementBlock(` when `wrap` holds.
pub open spec fn element_prefix(st: GenState, nd: bool, wrap: bool) -> (Seq<char>, GenState) {
    let st1 = if nd {
        with_import(st, VueImports::WithDirectives)
    } else {
        st
    };
    let p1 = if nd {
        import_name(VueImports::WithDirectives) + seq!['(']
    } else {
        Seq::empty()
    };
    let st2 = if wrap {
        with_import(with_import(st1, VueImports::OpenBlock), VueImports::CreateElementBlock)
    } else {
        with_import(st1, VueImports::CreateElementVNode)
    };
    let p2 = if wrap {
        seq!['('] + import_name(VueImports::OpenBlock) + "(), "@ + import_name(
            VueImports::CreateElementBlock,
        ) + seq!['(']
    } else {
        import_name(VueImports::CreateElementVNode) + seq!['(']
    };
    (p1 + p2, st2)
}

/// `, -1 /* HOISTED */)`, with one more `)` for the block form.
pub open spec fn element_suffix(wrap: bool) -> Seq<char> {
    ", "@ + "-1 /* HOISTED */"@ + (if wrap {
        seq![')']
    } else {
        Seq::empty()
    }) + seq![')']
}

/// `"tag", attributes or null, children or null`
#[verifier::opaque]
pub open spec fn gen_element_args(env: Env, st: GenState, e: ElementNode) -> (Seq<char>, GenState)
    decreases e, 0int,
{
    let tag = e.starting_tag;
    let (aw, at, st3) = gen_attributes(st, tag.attributes@, true);
    proof {
        assert(decreases_to!(e => e.children));
    }
    let (cw, ct, st4) = gen_children(env, st3, e.children@, true);
    (q(tag.tag_name@) + ", "@ + (if aw {
        at
    } else {
        "null"@
    }) + ", "@ + (if cw {
        ct
    } else {
        "null"@
    }), st4)
}

/// The children as a Js array. When all of them are text and inlining is allowed,
/// their concatenation is given in place of the array. An array spans several
/// lines unless all children are text or there is only one.
#[verifier::opaque]
pub open spec fn gen_children(env: Env, st: GenState, c: Seq<Node>, allow_inlining: bool) -> (bool, Seq<char>, GenState)
    decreases c, 2int,
{
    if c.len() == 0 {
        (false, Seq::empty(), st)
    } else {
        let inlinable = all_text(c);
        let should_inline = allow_inlining && inlinable;
        let multiline = !inlinable && c.len() > 1;
        let l = if multiline {
            st.level + 1
        } else {
            st.level
        };
        let (items, st1) = gen_items(env, at_level(st, l), c, 0, should_inline, multiline);
        (true, (if !should_inline {
            seq!['[']
        } else {
            Seq::empty()
        }) + (if multiline {
            nl(env, l)
        } else {
            Seq::empty()
        }) + items + (if multiline {
            nl(env, st.level)
        } else {
            Seq::empty()
        }) + (if !should_inline {
            seq![']']
        } else {
            Seq::empty()
        }), at_level(st1, st.level))
    }
}

/// The items of the children from `i` on: a run of text nodes is one item, any
/// other node another; items after the first are preceded by a separator.
#[verifier::opaque]
pub open spec fn gen_items(env: Env, st: GenState, c: Seq<Node>, i: int, should_inline: bool, multiline: bool) -> (Seq<char>, GenState)
    decreases c, 1int, c.len() - i,
{
    if i < 0 || i >= c.len() {
        (Seq::empty(), st)
    } else {
        let sep = if i > 0 && multiline {
            seq![','] + nl(env, st.level)
        } else if i > 0 {
            ", "@
        } else {
            Seq::empty()
        };
        if is_text_like(c[i]) {
            let end = text_run_end(c, i);
            let (t, st1) = gen_text_run(st, c.subrange(i, end), !should_inline);
            proof {
                lemma_text_run_end(c, i);
            }
            let (rest, st2) = gen_items(env, st1, c, end, should_inline, multiline);
            (sep + t + rest, st2)
        } else {
            proof {
                assert(decreases_to!(c => c[i]));
            }
            let (_, t, st1) = gen_node(env, st, c[i], false);
            let (rest, st2) = gen_items(env, st1, c, i + 1, should_inline, multiline);
            (sep + t + rest, st2)
        }
    }
}

/// The slots object of a component: named slots first, then the default slot.
#[verifier::opaque]
pub open spec fn gen_slots(env: Env, st: GenState, c: Seq<Node>) -> (Seq<char>, GenState)
    decreases c, 3int,
{
    let (named, st1, any_named) = gen_named_slots(env, st, c, 0, false);
    let has_default = exists|k: int| 0 <= k < c.len() && is_from_default_slot(#[trigger] c[k]);
    let (default_part, st2) = if has_default {
        let (_, ct, st_c) = gen_children(env, st1, c, false);
        ((if any_named {
            ", "@
        } else {
            Seq::empty()
        }) + "default: _withCtx(() => "@ + ct + seq![')'], st_c)
    } else {
        (Seq::empty(), st1)
    };
    (seq!['{'] + named + default_part + seq!['}'], st2)
}

/// The named slots among the children from `i` on; also gives whether one was written.
#[verifier::opaque]
pub open spec fn gen_named_slots(env: Env, st: GenState, c: Seq<Node>, i: int, needs_comma: bool) -> (Seq<char>, GenState, bool)
    decreases c, 1int, c.len() - i,
{
    if i < 0 || i >= c.len() {
        (Seq::empty(), st, needs_comma)
    } else if is_from_default_slot(c[i]) {
        gen_named_slots(env, st, c, i + 1, needs_comma)
    } else {
        match c[i] {
            Node::ElementNode(e) => {
                let (header, st1) = slot_header(st, e.starting_tag.attributes@);
                proof {
                    assert(decreases_to!(c => c[i]));
                    assert(decreases_to!(c[i] => c[i]->ElementNode_0));
                }
                let (cw, ct, st2) = gen_children(env, st1, e.children@, false);
                let (rest, st3, nc) = gen_named_slots(env, st2, c, i + 1, true);
                ((if needs_comma {
                    ", "@
                } else {
                    Seq::empty()
                }) + header + (if cw {
                    ct
                } else {
                    "[]"@
                }) + seq![')'] + rest, st3, nc)
            },
            _ => gen_named_slots(env, st, c, i + 1, needs_comma),
        }
    }
}

pub proof fn lemma_text_run_end(c: Seq<Node>, i: int)
    requires
        0 <= i <= c.len(),
    ensures
        i <= text_run_end(c, i) <= c.len(),
        i < c.len() && is_text_like(c[i]) ==> i < text_run_end(c, i),
        forall|k: int| i <= k < text_run_end(c, i) ==> is_text_like(#[trigger] c[k]),
        text_run_end(c, i) < c.len() ==> !is_text_like(c[text_run_end(c, i)]),
    decreases c.len() - i,
{
    if i < c.len() && is_text_like(c[i]) {
        lemma_text_run_end(c, i + 1);
    }
}


// ---------------------------------------------------------------------------
// What generation asks of a tree.
// ---------------------------------------------------------------------------

/// Whether `v-model` on an element is on `<input>`, `<select>` or `<textarea>`
/// (a component handles `v-model` itself).
pub open spec fn vmodel_supported(tag: StartingTag, is_component: bool) -> bool {
    is_component || supports_v_model(tag.tag_name@) || !(exists|k: int|
        0 <= k < tag.attributes@.len() && is_model_directive(#[trigger] tag.attributes@[k]))
}

pub open spec fn is_model_directive(a: HtmlAttribute) -> bool {
    a matches HtmlAttribute::VDirective(d) && d.name@ == "model"@
}

/// A tree can be generated with `room` indentation levels left: each element takes
/// at most four levels, and `v-model` is only on elements that support it.
pub open spec fn fits(env: Env, n: Node, room: int) -> bool
    decreases n,
{
    match n {
        Node::ElementNode(e) => room >= 4 && vmodel_supported(
            e.starting_tag,
            spec_is_component(env, e.starting_tag.tag_name@),
        ) && forall|k: int|
            0 <= k < e.children@.len() ==> fits(env, #[trigger] e.children@[k], room - 4),
        _ => true,
    }
}

/// Children can be generated with `room` levels left: one level for the array.
pub open spec fn children_fit(env: Env, c: Seq<Node>, room: int) -> bool {
    room >= 1 && forall|k: int| 0 <= k < c.len() ==> fits(env, #[trigger] c[k], room - 1)
}

/// More room does not hurt.
pub proof fn lemma_fits_mono(env: Env, n: Node, room: int, more: int)
    requires
        fits(env, n, room),
        room <= more,
    ensures
        fits(env, n, more),
    decreases n,
{
    if let Node::ElementNode(e) = n {
        assert forall|k: int| 0 <= k < e.children@.len() implies fits(env, #[trigger] e.children@[k], more - 4) by {
            assert(decreases_to!(n => n->ElementNode_0));
            lemma_fits_mono(env, e.children@[k], room - 4, more - 4);
        }
    }
}

/// The children of an element that fits fit, with the room of the element or
/// up to three levels less.
pub proof fn lemma_children_fit(env: Env, e: ElementNode, room: int, inner: int)
    requires
        fits(env, Node::ElementNode(e), room),
        inner >= room - 3,
    ensures
        children_fit(env, e.children@, inner),
{
    assert forall|k: int| 0 <= k < e.children@.len() implies fits(env, #[trigger] e.children@[k], inner - 1) by {
        lemma_fits_mono(env, e.children@[k], room - 4, inner - 1);
    }
}


// ---------------------------------------------------------------------------
// Whole templates and single-file components.
// ---------------------------------------------------------------------------

/// The setting a template is compiled with: two-space indentation, and custom
/// elements recognised by the pattern `custom-`.
pub open spec fn template_env() -> Env {
    Env { ind: "  "@, custom: CustomSpec::Pattern("custom-"@) }
}

/// Nothing used yet, at indentation `level`.
pub open spec fn empty_state(level: nat) -> GenState {
    GenState { level, imports: 0, components: Seq::empty(), directives: Seq::empty() }
}

/// The header of the render function.
pub open spec fn render_header() -> Seq<char> {
    "function render(_ctx, _cache, $props, $setup, $data, $options) {"@
}

/// The module of a template: its imports, then the render function that resolves
/// the components and returns the code of the template node. Only the imports used
/// by the node itself are listed. `Err(-1)` when the node is not an element (or the
/// custom-element pattern does not compile).
pub open spec fn spec_compile_template(template: Node) -> Result<Seq<char>, i32> {
    let env = template_env();
    let (w, body, st) = gen_node(env, empty_state(1), template, true);
    if !regex_is_valid("custom-"@) || !w {
        Err(-1i32)
    } else {
        let (comps, _) = gen_resolves(env, at_level(st, 1), st.components, VueImports::ResolveComponent);
        Ok(spec_imports_string(st.imports) + seq!['\n'] + nl(env, 0) + render_header() + nl(env, 1) + comps
            + seq!['\n'] + nl(env, 1) + "return "@ + body + nl(env, 0) + seq!['}'])
    }
}

/// A `<template>` is compiled unless a plain `lang` attribute names something other than `html`.
pub open spec fn is_supported_template(tag: StartingTag) -> bool {
    tag.tag_name@ == "template"@ && !(exists|k: int|
        0 <= k < tag.attributes@.len() && #[trigger] is_lang_other_than(tag.attributes@[k], "html"@))
}

pub open spec fn is_lang_other_than(a: HtmlAttribute, lang: Seq<char>) -> bool {
    a matches HtmlAttribute::Regular { name, value } && name@ == "lang"@ && value@ != lang
}

/// A plain `lang` attribute naming a language other than `js` and `ts`.
pub open spec fn is_unsupported_script_lang(a: HtmlAttribute) -> bool {
    a matches HtmlAttribute::Regular { name, value } && name@ == "lang"@ && value@ != "js"@ && value@ != "ts"@
}

/// A `<script>` with children is used when it has no `lang`, `lang="js"` or `lang="ts"`.
pub open spec fn is_supported_script(e: ElementNode) -> bool {
    e.starting_tag.tag_name@ == "script"@ && e.children@.len() > 0 && !(exists|k: int|
        0 <= k < e.starting_tag.attributes@.len() && #[trigger] is_unsupported_script_lang(e.starting_tag.attributes@[k]))
}

pub open spec fn export_default() -> Seq<char> {
    "export default "@
}

pub open spec fn const_sfc() -> Seq<char> {
    "const __sfc__ = "@
}

pub open spec fn const_sfc_empty() -> Seq<char> {
    "const __sfc__ = {}"@
}

/// One block of a single-file component on the result so far (text, whether a script
/// was seen, whether a template was): a supported template is compiled and appended;
/// a supported script whose content has `export default ` is put in front with that
/// replaced by `const __sfc__ = `; anything else is passed over.
pub open spec fn sfc_step(acc: (Seq<char>, bool, bool), block: Node) -> Result<(Seq<char>, bool, bool), i32> {
    match block {
        Node::ElementNode(e) => if is_supported_template(e.starting_tag) {
            match spec_compile_template(block) {
                Ok(t) => Ok((acc.0 + t, acc.1, true)),
                Err(x) => Err(x),
            }
        } else if is_supported_script(e) {
            match e.children@[0] {
                Node::TextNode(v) => Ok((
                    if spec_contains(v@, export_default()) {
                        spec_replace(v@, export_default(), const_sfc()) + acc.0
                    } else {
                        acc.0
                    },
                    true,
                    acc.2,
                )),
                _ => Err(-3i32),
            }
        } else {
            Ok(acc)
        },
        _ => Ok(acc),
    }
}

/// The first `n` blocks, one step after the other; the first error stops.
pub open spec fn sfc_fold(blocks: Seq<Node>, n: int) -> Result<(Seq<char>, bool, bool), i32>
    decreases n,
{
    if n <= 0 {
        Ok((Seq::empty(), false, false))
    } else {
        match sfc_fold(blocks, n - 1) {
            Ok(acc) => sfc_step(acc, blocks[n - 1]),
            Err(x) => Err(x),
        }
    }
}

/// The module of a single-file component: the script (or an empty component object),
/// the compiled template, the render function attached, and the default export.
/// `Err(-1000)` when nothing was produced.
pub open spec fn spec_compile_sfc(blocks: Seq<Node>) -> Result<Seq<char>, i32> {
    match sfc_fold(blocks, blocks.len() as int) {
        Err(x) => Err(x),
        Ok((res, had_script, had_template)) => if res.len() == 0 {
            Err(-1000i32)
        } else {
            let r1 = if !had_script {
                const_sfc_empty() + res
            } else {
                res
            };
            let r2 = if had_template {
                r1 + seq!['\n'] + "__sfc__.render = render"@
            } else {
                r1
            };
            Ok(r2 + seq!['\n'] + "export default __sfc__"@)
        },
    }
}

/// A node can be hoisted when it and all its descendants are static: no components,
/// no directives, no dynamic expressions.
pub open spec fn spec_can_be_hoisted(env: Env, node: Node) -> bool
    decreases node,
{
    match node {
        Node::ElementNode(e) => !spec_is_component(env, e.starting_tag.tag_name@) && !(exists|k: int|
            0 <= k < e.starting_tag.attributes@.len() && #[trigger] is_directive(e.starting_tag.attributes@[k]))
            && forall|k: int|
            0 <= k < e.children@.len() ==> spec_can_be_hoisted(env, #[trigger] e.children@[k]),
        Node::TextNode(_) => true,
        Node::DynamicExpression { .. } => false,
        Node::CommentNode(_) => true,
    }
}

pub open spec fn is_directive(a: HtmlAttribute) -> bool {
    a is VDirective
}

/// A plain attribute as an entry of the attributes object: `key: "value"`.
pub open spec fn plain_entry(a: HtmlAttribute) -> Seq<char> {
    match a {
        HtmlAttribute::Regular { name, value } => key_text(name@) + ": \""@ + value@ + seq!['"'],
        _ => Seq::empty(),
    }
}

/// The items joined by `, `.
pub open spec fn joined_entries(items: Seq<Seq<char>>) -> Seq<char>
    decreases items.len(),
{
    if items.len() == 0 {
        Seq::empty()
    } else if items.len() == 1 {
        items[0]
    } else {
        joined_entries(items.drop_last()) + ", "@ + items.last()
    }
}

proof fn lemma_joined_front(x: Seq<char>, rest: Seq<Seq<char>>)
    ensures
        joined_entries(seq![x] + rest) == x + if rest.len() > 0 { ", "@ + joined_entries(rest) } else { Seq::empty() },
    decreases rest.len(),
{
    let all = seq![x] + rest;
    if rest.len() == 0 {
        assert(all =~= seq![x]);
        assert(x + Seq::<char>::empty() =~= x);
    } else if rest.len() == 1 {
        assert(all.drop_last() =~= seq![x]);
        assert(joined_entries(all.drop_last()) == x);
        assert(all.last() == rest[0]);
        assert(joined_entries(rest) == rest[0]);
        assert(joined_entries(all) =~= x + (", "@ + joined_entries(rest)));
    } else {
        lemma_joined_front(x, rest.drop_last());
        assert(all.drop_last() =~= seq![x] + rest.drop_last());
        assert(all.last() == rest.last());
        assert(joined_entries(all) == joined_entries(all.drop_last()) + ", "@ + all.last());
        assert(joined_entries(rest) == joined_entries(rest.drop_last()) + ", "@ + rest.last());
        assert(x + (", "@ + joined_entries(rest.drop_last())) + ", "@ + rest.last()
            =~= x + (", "@ + (joined_entries(rest.drop_last()) + ", "@ + rest.last())));
    }
}

proof fn lemma_plain_items(attrs: Seq<HtmlAttribute>, i: int, has_first: bool)
    requires
        0 <= i <= attrs.len(),
        forall|k: int| 0 <= k < attrs.len() ==> #[trigger] attrs[k] is Regular,
        class_bind(attrs) is None,
    ensures
        attr_items(attrs, false, i, has_first).0 == (if has_first && i < attrs.len() { ", "@ } else { Seq::empty() })
            + joined_entries(attrs.subrange(i, attrs.len() as int).map_values(|a: HtmlAttribute| plain_entry(a))),
    decreases attrs.len() - i,
{
    let rest = attrs.subrange(i, attrs.len() as int).map_values(|a: HtmlAttribute| plain_entry(a));
    if i == attrs.len() {
        assert(rest.len() == 0);
    } else {
        lemma_plain_items(attrs, i + 1, true);
        let tail = attrs.subrange(i + 1, attrs.len() as int).map_values(|a: HtmlAttribute| plain_entry(a));
        assert(rest =~= seq![plain_entry(attrs[i])] + tail);
        lemma_joined_front(plain_entry(attrs[i]), tail);
        assert(attr_item(attrs[i]).0 == plain_entry(attrs[i]));
        assert(!is_set_aside(attrs[i], false, false));
    }
}

/// Plain attributes only: the attributes object holds each of them once, as
/// `key: "value"`, in their order, separated by `, `.
pub proof fn lemma_plain_attributes(st: GenState, attrs: Seq<HtmlAttribute>, shell: bool)
    requires
        attrs.len() > 0,
        forall|k: int| 0 <= k < attrs.len() ==> #[trigger] attrs[k] is Regular,
    ensures
        gen_attributes(st, attrs, shell).0,
        gen_attributes(st, attrs, shell).1 == object_text(
            joined_entries(attrs.map_values(|a: HtmlAttribute| plain_entry(a))), shell),
{
    lemma_no_class_bind(attrs);
    lemma_plain_items(attrs, 0, false);
    assert(attrs.subrange(0, attrs.len() as int) =~= attrs);
    assert(is_attribute_work(attrs[0]));
    reveal(gen_attributes_skipping);
    let (items, hf) = attr_items(attrs, false, 0, false);
    assert(items + class_text(attrs, hf) =~= items);
}

proof fn lemma_no_class_bind(attrs: Seq<HtmlAttribute>)
    requires
        forall|k: int| 0 <= k < attrs.len() ==> #[trigger] attrs[k] is Regular,
    ensures
        class_bind(attrs) is None,
    decreases attrs.len(),
{
    if attrs.len() > 0 {
        let init = attrs.drop_last();
        assert forall|k: int| 0 <= k < init.len() implies #[trigger] init[k] is Regular by {
            assert(init[k] == attrs[k]);
        }
        assert(attrs.last() == attrs[attrs.len() - 1]);
        lemma_no_class_bind(init);
    }
}

/// The runtime directive of `v-model` goes by the element: on `<input>` a
/// checkbox gets `vModelCheckbox`, a radio button `vModelRadio`, any other type
/// `vModelText`; a `<textarea>` gets `vModelText` and a `<select>` `vModelSelect`.
/// The radio and checkbox directives are not the text one.
pub proof fn lemma_vmodel_directive_by_element(tag: StartingTag)
    requires
        supports_v_model(tag.tag_name@),
    ensures
        tag.tag_name@ == "input"@ && input_type(tag.attributes@) == "radio"@ ==> import_name(vmodel_import(tag)) == "_vModelRadio"@
            && vmodel_import(tag) == VueImports::VModelRadio,
        tag.tag_name@ == "input"@ && input_type(tag.attributes@) == "checkbox"@ ==> import_name(vmodel_import(tag))
            == "_vModelCheckbox"@ && vmodel_import(tag) == VueImports::VModelCheckbox,
        tag.tag_name@ == "input"@ && input_type(tag.attributes@) != "radio"@ && input_type(tag.attributes@) != "checkbox"@
            ==> import_name(vmodel_import(tag)) == "_vModelText"@,
        tag.tag_name@ == "textarea"@ ==> import_name(vmodel_import(tag)) == "_vModelText"@,
        tag.tag_name@ == "select"@ ==> import_name(vmodel_import(tag)) == "_vModelSelect"@,
        VueImports::VModelRadio != VueImports::VModelText && VueImports::VModelCheckbox != VueImports::VModelText,
{
    reveal_strlit("input");
    reveal_strlit("textarea");
    reveal_strlit("select");
    reveal_strlit("radio");
    reveal_strlit("checkbox");
    assert("textarea"@.len() == 8 && "input"@.len() == 5);
    assert("radio"@.len() == 5 && "checkbox"@.len() == 8);
}

/// The key of a `v-bind` entry: an argument with a `-` is written between double
/// quotes (`"data-id": value`), any other stands bare (`id: value`); without a
/// value nothing is written.
pub proof fn lemma_v_bind_key_quoting(argument: Seq<char>, value: Seq<char>)
    ensures
        argument.contains('-') ==> v_bind_text(argument, Some(value)) == seq!['"'] + argument + seq!['"'] + ": "@ + value,
        !argument.contains('-') ==> v_bind_text(argument, Some(value)) == argument + ": "@ + value,
        v_bind_text(argument, None) == Seq::<char>::empty(),
{
}

} // verus!
