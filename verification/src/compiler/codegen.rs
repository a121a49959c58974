//! The code generation context and the entry points of the compiler.
use vstd::prelude::*;

use crate::compiler::gen_spec::{
    at_level, const_sfc, const_sfc_empty, empty_state, export_default, fits, gen_node, gen_resolves,
    html_tags, is_directive, is_unsupported_script_lang, is_lang_other_than, is_supported_script,
    is_supported_template, nl, regex_capture, regex_is_valid, regex_matches, render_header, sfc_fold, sfc_step,
    spec_can_be_hoisted, spec_compile_sfc, spec_compile_template, spec_is_component,
    spec_is_html_tag, template_env, vmodel_supported, is_model_directive, supports_v_model, CustomSpec, Env, GenState,
};
use crate::compiler::helper::CodeHelper;
use crate::compiler::imports::{spec_imports_string, VueImports};
use crate::parser::attributes::HtmlAttribute;
use crate::parser::structs::{Node, StartingTag};
use crate::text::{
    chars_of, decimal, push_char, push_decimal, push_str, spec_contains, spec_replace, str_contains,
    str_eq, str_replace, to_owned_string,
};

verus! {

/// The regular expression type of the `regex` crate.
#[verifier::external_type_specification]
#[verifier::external_body]
pub struct ExRegex(regex::Regex);

/// A compiled regular expression together with the pattern it was compiled from.
/// Values are only made by `compile_regex`, so the two always agree.
pub struct CustomElementRegex {
    pattern: String,
    compiled: regex::Regex,
}

impl CustomElementRegex {
    pub closed spec fn pattern(&self) -> Seq<char> {
        self.pattern@
    }
}

/// Compiles `pattern` (`regex::Regex::new`). The result is present exactly when
/// the pattern compiles; it keeps the pattern.
#[verifier::external_body]
pub(crate) fn compile_regex(pattern: &str) -> (r: Option<CustomElementRegex>)
    ensures
        r is Some <==> regex_is_valid(pattern@),
        r matches Some(x) ==> x.pattern() == pattern@,
{
    match regex::Regex::new(pattern) {
        Ok(compiled) => Some(CustomElementRegex { pattern: pattern.to_string(), compiled }),
        Err(_) => None,
    }
}

/// Whether the regular expression matches somewhere in `haystack` (`regex::Regex::is_match`).
#[verifier::external_body]
pub(crate) fn regex_is_match(re: &CustomElementRegex, haystack: &str) -> (r: bool)
    ensures
        r == regex_matches(re.pattern(), haystack@),
{
    re.compiled.is_match(haystack)
}

/// The text of capture group `group` of the first match in `haystack`
/// (`regex::Regex::captures`, then `Captures::get`).
#[verifier::external_body]
pub(crate) fn regex_capture_group(re: &CustomElementRegex, haystack: &str, group: usize) -> (r: Option<String>)
    ensures
        match r {
            Some(s) => regex_capture(re.pattern(), haystack@, group as nat) == Some(s@),
            None => regex_capture(re.pattern(), haystack@, group as nat) is None,
        },
{
    re.compiled.captures(haystack).and_then(|c| c.get(group)).map(|m| m.as_str().to_string())
}

/// How custom elements are recognised: by exact tag name, by a regular expression or not at all.
pub enum IsCustomElementParam {
    TagName(String),
    Regex(CustomElementRegex),
    NoCustomElements,
}

/// The state of code generation.
/// `components` and `directives` map a name used in the template to the
/// JavaScript identifier it is resolved into, in order of first use.
pub struct CodegenContext<'a> {
    pub code_helper: CodeHelper<'a>,
    pub components: Vec<(String, String)>,
    pub directives: Vec<(String, String)>,
    pub used_imports: u64,
    pub hoists: Vec<String>,
    pub is_custom_element: IsCustomElementParam,
}

pub open spec fn pairs_view(v: Seq<(String, String)>) -> Seq<(Seq<char>, Seq<char>)> {
    v.map_values(|p: (String, String)| (p.0@, p.1@))
}


/// The part of a script that is replaced to keep the component object in a variable.
pub const EXPORT_DEFAULT: &'static str = "export default ";

/// What `export default ` is replaced with.
pub const CONST_SFC: &'static str = "const __sfc__ = ";

/// The component object when there is no script.
pub const CONST_SFC_EMPTY: &'static str = "const __sfc__ = {}";

/// Compiles a template node into a module with the imports and the render function.
/// The node is compiled at indentation level 1, as the body of the render function.
pub fn compile_template(template: &Node) -> (r: Result<String, i32>)
    requires
        fits(template_env(), *template, usize::MAX - 1),
    ensures
        spec_compile_template(*template) == match r {
            Ok(s) => Ok(s@),
            Err(e) => Err(e),
        },
{
    let ghost env = template_env();
    // The custom elements: tags that match `custom-`
    let is_custom_element_re = match compile_regex("custom-") {
        Some(re) => re,
        None => return Err(-1),
    };

    // Create the context
    let mut ctx = CodegenContext::new(IsCustomElementParam::Regex(is_custom_element_re));
    assert(ctx.env() == env);
    assert(pairs_view(ctx.components@) =~= Seq::empty());
    assert(pairs_view(ctx.directives@) =~= Seq::empty());
    assert(ctx.gen_state() == empty_state(0));

    // Try compiling the template. Indent because this will end up in a body of a function.
    // We first need to compile template before knowing imports, components and hoists
    ctx.code_helper.indent();
    let mut render_fn_return = String::new();
    let compiled_template = ctx.compile_node(&mut render_fn_return, template, true);
    ctx.code_helper.unindent();
    let ghost gn = gen_node(env, empty_state(1), *template, true);
    assert(render_fn_return@ =~= gn.1);

    if !compiled_template {
        return Err(-1);
    }
    let ghost st = gn.2;
    let mut result = ctx.generate_imports_string();
    ctx.code_helper.newline_n(&mut result, 2);

    // Function header
    push_str(&mut result, "function render(_ctx, _cache, $props, $setup, $data, $options) {");
    ctx.code_helper.indent();

    // Write components
    ctx.code_helper.newline(&mut result);
    let ghost before_comps = result@;
    ctx.generate_components_string(&mut result);
    let ghost comps = gen_resolves(env, at_level(st, 1), st.components, VueImports::ResolveComponent).0;
    assert(result@ == before_comps + comps);

    // Write return statement
    ctx.code_helper.newline_n(&mut result, 2);
    push_str(&mut result, "return ");
    push_str(&mut result, render_fn_return.as_str());

    // Closing bracket
    ctx.code_helper.unindent();
    ctx.code_helper.newline(&mut result);
    push_char(&mut result, '}');
    proof {
        reveal_with_fuel(crate::compiler::helper::repeat, 2);
    }
    assert(crate::compiler::helper::repeat(seq!['\n'], 1) =~= seq!['\n']);
    assert(result@ =~= spec_imports_string(st.imports) + seq!['\n'] + nl(env, 0) + render_header() + nl(env, 1)
        + comps + seq!['\n'] + nl(env, 1) + "return "@ + gn.1 + nl(env, 0) + seq!['}']);
    Ok(result)
}

/// Whether a `<template>` block is compiled: no plain `lang` attribute other than `html`.
fn is_supported_template_tag(tag: &StartingTag) -> (r: bool)
    ensures
        r == is_supported_template(*tag),
{
    if !str_eq(tag.tag_name.as_str(), "template") {
        return false;
    }
    let attrs = &tag.attributes;
    let mut k: usize = 0;
    while k < attrs.len()
        invariant
            attrs@ == tag.attributes@,
            tag.tag_name@ == "template"@,
            k <= attrs.len(),
            forall|j: int| 0 <= j < k ==> !is_lang_other_than(#[trigger] attrs@[j], "html"@),
        decreases attrs.len() - k,
    {
        if let HtmlAttribute::Regular { name, value } = &attrs[k] {
            if str_eq(name.as_str(), "lang") && !str_eq(value.as_str(), "html") {
                assert(is_lang_other_than(tag.attributes@[k as int], "html"@));
                return false;
            }
        }
        k = k + 1;
    }
    true
}

/// Whether a `<script>` block is used: it has children, and no `lang`, `lang="js"` or `lang="ts"`.
fn is_supported_script_element(e: &crate::parser::structs::ElementNode) -> (r: bool)
    ensures
        r == is_supported_script(*e),
{
    if !str_eq(e.starting_tag.tag_name.as_str(), "script") || e.children.len() == 0 {
        return false;
    }
    let attrs = &e.starting_tag.attributes;
    let mut k: usize = 0;
    while k < attrs.len()
        invariant
            attrs@ == e.starting_tag.attributes@,
            e.starting_tag.tag_name@ == "script"@,
            e.children@.len() > 0,
            k <= attrs.len(),
            forall|j: int| 0 <= j < k ==> !is_unsupported_script_lang(#[trigger] attrs@[j]),
        decreases attrs.len() - k,
    {
        if let HtmlAttribute::Regular { name, value } = &attrs[k] {
            // Script is supported if it has empty `lang`, `lang="js"` or `lang="ts"`
            if str_eq(name.as_str(), "lang") && !str_eq(value.as_str(), "js") && !str_eq(value.as_str(), "ts") {
                assert(is_unsupported_script_lang(e.starting_tag.attributes@[k as int]));
                return false;
            }
        }
        k = k + 1;
    }
    true
}

/// Whether the element allows its `v-model` directives (see [`vmodel_supported`]).
fn vmodel_supported_exec(tag: &StartingTag, is_component: bool) -> (r: bool)
    ensures
        r == vmodel_supported(*tag, is_component),
{
    proof {
        reveal_strlit("input");
        reveal_strlit("textarea");
        reveal_strlit("select");
    }
    if is_component || str_eq(tag.tag_name.as_str(), "input") || str_eq(tag.tag_name.as_str(), "textarea")
        || str_eq(tag.tag_name.as_str(), "select") {
        return true;
    }
    let attrs = &tag.attributes;
    let mut k: usize = 0;
    while k < attrs.len()
        invariant
            !is_component && !supports_v_model(tag.tag_name@),
            attrs@ == tag.attributes@,
            k <= attrs.len(),
            forall|j: int| 0 <= j < k ==> !is_model_directive(#[trigger] attrs@[j]),
        decreases attrs.len() - k,
    {
        proof {
            reveal_strlit("model");
        }
        if let HtmlAttribute::VDirective(d) = &attrs[k] {
            if str_eq(d.name.as_str(), "model") {
                assert(is_model_directive(attrs@[k as int]));
                return false;
            }
        }
        k = k + 1;
    }
    true
}

/// Whether the tree can be generated with `room` levels left (see [`fits`]), with
/// the components told apart as `ctx` does.
fn node_fits(ctx: &CodegenContext, n: &Node, room: usize) -> (r: bool)
    ensures
        r == fits(ctx.env(), *n, room as int),
    decreases *n,
{
    match n {
        Node::ElementNode(e) => {
            if room < 4 {
                return false;
            }
            let is_component = ctx.is_component(&e.starting_tag);
            if !vmodel_supported_exec(&e.starting_tag, is_component) {
                return false;
            }
            let mut k: usize = 0;
            while k < e.children.len()
                invariant
                    room >= 4,
                    *n == Node::ElementNode(*e),
                    k <= e.children.len(),
                    forall|j: int| 0 <= j < k ==> fits(ctx.env(), #[trigger] e.children@[j], room - 4),
                decreases e.children.len() - k,
            {
                proof {
                    assert(decreases_to!(*n => (*n)->ElementNode_0));
                    assert((*n)->ElementNode_0 == *e);
                    assert(decreases_to!(*e => e.children));
                    assert(decreases_to!(e.children => e.children@));
                    assert(decreases_to!(e.children@ => e.children@[k as int]));
                }
                if !node_fits(ctx, &e.children[k], room - 4) {
                    return false;
                }
                k = k + 1;
            }
            true
        },
        _ => true,
    }
}

/// [`compile_template`] on any node: `None` when the node cannot be generated
/// (a `v-model` on an element that does not support it, or more nesting than the
/// indentation can count) or the pattern of custom elements does not compile.
pub fn compile_template_checked(template: &Node) -> (r: Option<Result<String, i32>>)
    ensures
        r is Some <==> regex_is_valid("custom-"@) && fits(template_env(), *template, usize::MAX - 1),
        r matches Some(x) ==> spec_compile_template(*template) == match x {
            Ok(s) => Ok(s@),
            Err(e) => Err(e),
        },
{
    proof {
        reveal_strlit("custom-");
    }
    let re = match compile_regex("custom-") {
        Some(re) => re,
        None => return None,
    };
    let ctx = CodegenContext::new(IsCustomElementParam::Regex(re));
    assert(ctx.env() == template_env());
    if !node_fits(&ctx, template, usize::MAX - 1) {
        return None;
    }
    Some(compile_template(template))
}

/// [`compile_sfc`] on any blocks: `None` when one of them cannot be generated (see
/// [`compile_template_checked`]) or the pattern of custom elements does not compile.
pub fn compile_sfc_checked(blocks: &[Node]) -> (r: Option<Result<String, i32>>)
    ensures
        r is Some <==> regex_is_valid("custom-"@) && forall|k: int|
            0 <= k < blocks@.len() ==> fits(template_env(), #[trigger] blocks@[k], usize::MAX - 1),
        r matches Some(x) ==> spec_compile_sfc(blocks@) == match x {
            Ok(s) => Ok(s@),
            Err(e) => Err(e),
        },
{
    proof {
        reveal_strlit("custom-");
    }
    let re = match compile_regex("custom-") {
        Some(re) => re,
        None => return None,
    };
    let ctx = CodegenContext::new(IsCustomElementParam::Regex(re));
    assert(ctx.env() == template_env());
    let mut k: usize = 0;
    while k < blocks.len()
        invariant
            ctx.env() == template_env(),
            k <= blocks.len(),
            forall|j: int| 0 <= j < k ==> fits(template_env(), #[trigger] blocks@[j], usize::MAX - 1),
        decreases blocks.len() - k,
    {
        if !node_fits(&ctx, &blocks[k], usize::MAX - 1) {
            return None;
        }
        k = k + 1;
    }
    Some(compile_sfc(blocks))
}

/// Compiles the blocks of a single-file component into one module.
pub fn compile_sfc(blocks: &[Node]) -> (r: Result<String, i32>)
    requires
        forall|k: int| 0 <= k < blocks@.len() ==> fits(template_env(), #[trigger] blocks@[k], usize::MAX - 1),
    ensures
        spec_compile_sfc(blocks@) == match r {
            Ok(s) => Ok(s@),
            Err(e) => Err(e),
        },
{
    let mut result = String::new();
    let mut had_script = false;
    let mut had_template = false;

    let mut i: usize = 0;
    while i < blocks.len()
        invariant
            i <= blocks.len(),
            forall|k: int| 0 <= k < blocks@.len() ==> fits(template_env(), #[trigger] blocks@[k], usize::MAX - 1),
            sfc_fold(blocks@, i as int) == Ok::<(Seq<char>, bool, bool), i32>((result@, had_script, had_template)),
        decreases blocks.len() - i,
    {
        let block = &blocks[i];
        let ghost acc = (result@, had_script, had_template);
        assert(sfc_fold(blocks@, i + 1) == sfc_step(acc, blocks@[i as int]));
        if let Node::ElementNode(e) = block {
            // Template is supported if it doesn't have a `lang` attr or has `lang="html"`
            if is_supported_template_tag(&e.starting_tag) {
                match compile_template(block) {
                    Ok(compiled_template) => {
                        push_str(&mut result, compiled_template.as_str());
                        had_template = true;
                    },
                    Err(e) => {
                        proof {
                            lemma_sfc_fold_err(blocks@, i as int + 1, blocks@.len() as int);
                        }
                        return Err(e);
                    },
                }
            } else if is_supported_script_element(e) {
                // Script is supported if it has empty `lang`, `lang="js"` or `lang="ts"`
                match &e.children[0] {
                    Node::TextNode(script_content) => {
                        // Naive approach: replace `export default ` with `const __sfc__ = `
                        proof {
                            reveal_strlit("export default ");
                        }
                        let has_default_export = str_contains(script_content.as_str(), EXPORT_DEFAULT);
                        if has_default_export {
                            let mut prefixed = str_replace(script_content.as_str(), EXPORT_DEFAULT, CONST_SFC);
                            push_str(&mut prefixed, result.as_str());
                            result = prefixed;
                        }
                        had_script = true;
                    },
                    _ => {
                        proof {
                            lemma_sfc_fold_err(blocks@, i as int + 1, blocks@.len() as int);
                        }
                        return Err(-3);
                    },
                }
            }
        }
        i = i + 1;
    }
    assert(blocks@.len() == i);
    let ghost res = result@;
    assert(sfc_fold(blocks@, blocks@.len() as int) == Ok::<(Seq<char>, bool, bool), i32>((res, had_script, had_template)));

    if chars_of(result.as_str()).len() == 0 {
        return Err(-1000);
    }
    if !had_script {
        let mut with_empty = to_owned_string(CONST_SFC_EMPTY);
        push_str(&mut with_empty, result.as_str());
        result = with_empty;
    }
    let ghost r1 = result@;
    assert(r1 == if !had_script { const_sfc_empty() + res } else { res });
    if had_template {
        push_char(&mut result, '\n');
        push_str(&mut result, "__sfc__.render = render");
    }
    let ghost r2 = result@;
    assert(r2 =~= if had_template { r1 + seq!['\n'] + "__sfc__.render = render"@ } else { r1 });
    push_char(&mut result, '\n');
    push_str(&mut result, "export default __sfc__");
    assert(result@ =~= r2 + seq!['\n'] + "export default __sfc__"@);
    Ok(result)
}

/// Once the fold has failed, it stays failed with the same error.
proof fn lemma_sfc_fold_err(blocks: Seq<Node>, n: int, m: int)
    requires
        0 <= n <= m,
        sfc_fold(blocks, n) is Err,
    ensures
        sfc_fold(blocks, m) == sfc_fold(blocks, n),
    decreases m - n,
{
    if n < m {
        lemma_sfc_fold_err(blocks, n, m - 1);
    }
}

impl<'a> CodegenContext<'a> {
    /// What stays fixed during generation.
    pub open spec fn env(&self) -> Env {
        Env {
            ind: self.code_helper.indent_str@,
            custom: match self.is_custom_element {
                IsCustomElementParam::TagName(s) => CustomSpec::TagName(s@),
                IsCustomElementParam::Regex(r) => CustomSpec::Pattern(r.pattern()),
                IsCustomElementParam::NoCustomElements => CustomSpec::NoCustom,
            },
        }
    }

    /// The generation state held by the context.
    pub open spec fn gen_state(&self) -> GenState {
        GenState {
            level: self.code_helper.indent_level as nat,
            imports: self.used_imports,
            components: pairs_view(self.components@),
            directives: pairs_view(self.directives@),
        }
    }

    /// A new context, at indentation level 0 with nothing used yet.
    pub fn new(is_custom_element: IsCustomElementParam) -> (r: Self)
        ensures
            r.code_helper.indent_level == 0,
            r.code_helper.indent_str@ == "  "@,
            r.components@.len() == 0,
            r.directives@.len() == 0,
            r.used_imports == 0,
            r.hoists@.len() == 0,
            r.is_custom_element == is_custom_element,
    {
        CodegenContext {
            code_helper: CodeHelper::default(),
            components: Vec::new(),
            directives: Vec::new(),
            used_imports: 0,
            hoists: Vec::new(),
            is_custom_element,
        }
    }

    /// The element can be hoisted if it and all of its descendants do not have dynamic attributes
    /// `<div class="a"><span>text</span></div>` => true
    /// `<button :disabled="isDisabled">text</button>` => false
    /// `<span>{{ text }}</span>` => false
    pub fn can_be_hoisted(&self, node: &Node) -> (r: bool)
        ensures
            r == spec_can_be_hoisted(self.env(), *node),
        decreases node,
    {
        match node {
            Node::ElementNode(e) => {
                // Check starting tag
                if self.is_component(&e.starting_tag) {
                    return false;
                }
                let attrs = &e.starting_tag.attributes;
                let mut k: usize = 0;
                while k < attrs.len()
                    invariant
                        attrs@ == e.starting_tag.attributes@,
                        *node == Node::ElementNode(*e),
                        k <= attrs.len(),
                        forall|j: int| 0 <= j < k ==> !is_directive(#[trigger] attrs@[j]),
                    decreases attrs.len() - k,
                {
                    if let HtmlAttribute::VDirective(_) = &attrs[k] {
                        assert(is_directive(e.starting_tag.attributes@[k as int]));
                        return false;
                    }
                    k = k + 1;
                }
                let children = &e.children;
                let mut c: usize = 0;
                while c < children.len()
                    invariant
                        children@ == e.children@,
                        *node == Node::ElementNode(*e),
                        c <= children.len(),
                        forall|j: int| 0 <= j < c ==> spec_can_be_hoisted(self.env(), #[trigger] children@[j]),
                    decreases children.len() - c,
                {
                    proof {
                        assert(decreases_to!(*node => node->ElementNode_0));
                        assert(decreases_to!(node->ElementNode_0 => e.children));
                        assert(decreases_to!(e.children => e.children@));
                        assert(decreases_to!(e.children@ => e.children@[c as int]));
                    }
                    if !self.can_be_hoisted(&children[c]) {
                        return false;
                    }
                    c = c + 1;
                }
                true
            },
            Node::TextNode(_) => true,
            Node::DynamicExpression { .. } => false,
            Node::CommentNode(_) => true,
        }
    }

    /// Registers a hoisted expression as `const _hoisted_<n> = /*#__PURE__*/ <expression>`
    /// and gives its identifier `_hoisted_<n>`, `n` counting from 1.
    pub fn add_to_hoists(&mut self, expression: String) -> (r: String)
        requires
            old(self).hoists.len() < u64::MAX,
        ensures
            r@ == "_hoisted_"@ + decimal((old(self).hoists.len() + 1) as nat),
            final(self).hoists@.len() == old(self).hoists@.len() + 1,
            final(self).hoists@.take(old(self).hoists@.len() as int) == old(self).hoists@,
            final(self).hoists@.last()@ == "const "@ + r@ + " = /*#__PURE__*/ "@ + expression@,
            final(self).gen_state() == old(self).gen_state(),
            final(self).env() == old(self).env(),
    {
        let hoist_index = self.hoists.len() as u64 + 1;
        let mut hoist_identifier = to_owned_string("_hoisted_");
        push_decimal(&mut hoist_identifier, hoist_index);

        let mut hoist_expr = to_owned_string("const ");
        push_str(&mut hoist_expr, hoist_identifier.as_str());
        push_str(&mut hoist_expr, " = /*#__PURE__*/ ");
        push_str(&mut hoist_expr, expression.as_str());
        self.hoists.push(hoist_expr);
        assert(self.hoists@.take(old(self).hoists@.len() as int) =~= old(self).hoists@);
        hoist_identifier
    }

    /// Whether a tag is a component: it is neither an HTML tag nor a custom element.
    pub fn is_component(&self, starting_tag: &StartingTag) -> (r: bool)
        ensures
            r == spec_is_component(self.env(), starting_tag.tag_name@),
    {
        let tag_name = starting_tag.tag_name.as_str();
        if is_html_tag(tag_name) {
            return false;
        }
        let is_custom_element = match &self.is_custom_element {
            IsCustomElementParam::TagName(string) => str_eq(tag_name, string.as_str()),
            IsCustomElementParam::Regex(re) => regex_is_match(re, tag_name),
            IsCustomElementParam::NoCustomElements => false,
        };
        !is_custom_element
    }
}

/// The HTML tag at position `i` of the list of HTML tags.
fn html_tag_at(i: usize) -> (r: &'static str)
    requires
        i < html_tags().len(),
    ensures
        r@ == html_tags()[i as int],
{
    match i {
        0 => "html",
        1 => "body",
        2 => "base",
        3 => "head",
        4 => "link",
        5 => "meta",
        6 => "style",
        7 => "title",
        8 => "address",
        9 => "article",
        10 => "aside",
        11 => "footer",
        12 => "header",
        13 => "hgroup",
        14 => "h1",
        15 => "h2",
        16 => "h3",
        17 => "h4",
        18 => "h5",
        19 => "h6",
        20 => "nav",
        21 => "section",
        22 => "div",
        23 => "dd",
        24 => "dl",
        25 => "dt",
        26 => "figcaption",
        27 => "figure",
        28 => "picture",
        29 => "hr",
        30 => "img",
        31 => "li",
        32 => "main",
        33 => "ol",
        34 => "p",
        35 => "pre",
        36 => "ul",
        37 => "a",
        38 => "b",
        39 => "abbr",
        40 => "bdi",
        41 => "bdo",
        42 => "br",
        43 => "cite",
        44 => "code",
        45 => "data",
        46 => "dfn",
        47 => "em",
        48 => "i",
        49 => "kbd",
        50 => "mark",
        51 => "q",
        52 => "rp",
        53 => "rt",
        54 => "ruby",
        55 => "s",
        56 => "samp",
        57 => "small",
        58 => "span",
        59 => "strong",
        60 => "sub",
        61 => "sup",
        62 => "time",
        63 => "u",
        64 => "var",
        65 => "wbr",
        66 => "area",
        67 => "audio",
        68 => "map",
        69 => "track",
        70 => "video",
        71 => "embed",
        72 => "object",
        73 => "param",
        74 => "source",
        75 => "canvas",
        76 => "script",
        77 => "noscript",
        78 => "del",
        79 => "ins",
        80 => "caption",
        81 => "col",
        82 => "colgroup",
        83 => "table",
        84 => "thead",
        85 => "tbody",
        86 => "td",
        87 => "th",
        88 => "tr",
        89 => "button",
        90 => "datalist",
        91 => "fieldset",
        92 => "form",
        93 => "input",
        94 => "label",
        95 => "legend",
        96 => "meter",
        97 => "optgroup",
        98 => "option",
        99 => "output",
        100 => "progress",
        101 => "select",
        102 => "textarea",
        103 => "details",
        104 => "dialog",
        105 => "menu",
        106 => "summary",
        107 => "template",
        108 => "blockquote",
        109 => "iframe",
        _ => "tfoot",
    }
}

/// Whether `tag` is a tag of HTML.
pub fn is_html_tag(tag: &str) -> (r: bool)
    ensures
        r == spec_is_html_tag(tag@),
{
    let n: usize = 111;
    assert(html_tags().len() == 111);
    let mut i: usize = 0;
    while i < n
        invariant
            n == html_tags().len(),
            i <= n,
            forall|k: int| 0 <= k < i ==> html_tags()[k] != tag@,
        decreases n - i,
    {
        if str_eq(tag, html_tag_at(i)) {
            return true;
        }
        i = i + 1;
    }
    false
}


/// A compiled component always ends by exporting the component object, and it
/// renders when it had a template.
pub proof fn lemma_compile_sfc_exports(blocks: Seq<Node>)
    ensures
        spec_compile_sfc(blocks) matches Ok(r) ==> {
            let tail = seq!['\n'] + "export default __sfc__"@;
            &&& r.len() >= tail.len()
            &&& r.skip(r.len() - tail.len()) == tail
        },
{
    if let Ok(r) = spec_compile_sfc(blocks) {
        let tail = seq!['\n'] + "export default __sfc__"@;
        if let Ok((res, had_script, had_template)) = sfc_fold(blocks, blocks.len() as int) {
            let r1 = if !had_script {
                const_sfc_empty() + res
            } else {
                res
            };
            let r2 = if had_template {
                r1 + seq!['\n'] + "__sfc__.render = render"@
            } else {
                r1
            };
            assert(r == r2 + tail);
            assert(r.skip(r.len() - tail.len()) =~= tail);
        }
    }
}

} // verus!
