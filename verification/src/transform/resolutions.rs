//! Resolving elements: components from the setup bindings, reserved props and handlers.
use vstd::prelude::*;

use crate::analyzer::scope::chain_ends;
use crate::case::{all_ascii, ascii_dash_case_from, spec_camel_case, spec_pascal_case, to_camel_case, to_pascal_case};
use crate::parser::structs::StartingTag;
use crate::text::{chars_of, str_eq, string_from_range, to_owned_string};
use crate::transform::context::{
    BindingTypes, BindingsHelper, ComponentBinding, CustomDirectiveBinding, ResolvedIdent, SetupBinding,
    TemplateGenerationMode,
};
use crate::transform::expr_transform::{
    bindings_view, cache_view, find_type, options_setup, plain_ident_strategy, plain_ident_transform_strategy,
    spec_binding_type, strategy_view, StrategyView,
};
use crate::transform::providers::TemplateVisitor;

verus! {

/// Whether a binding is what a tag names: the tag in PascalCase or camelCase.
pub open spec fn binding_matches(b: SetupBinding, tag_name: Seq<char>) -> bool {
    b.sym@ == spec_pascal_case(tag_name) || b.sym@ == spec_camel_case(tag_name)
}

/// Finds the setup binding a tag refers to: `component-name` is looked up as
/// `ComponentName` and as `componentName`; the first binding that matches is given.
pub fn find_binding<'a>(bindings_helper: &'a BindingsHelper, tag_name: &str) -> (r: Option<&'a SetupBinding>)
    ensures
        match r {
            Some(b) => exists|k: int|
                0 <= k < bindings_helper.setup_bindings@.len() && bindings_helper.setup_bindings@[k] == *b
                    && binding_matches(*b, tag_name@) && forall|j: int|
                    0 <= j < k ==> !binding_matches(#[trigger] bindings_helper.setup_bindings@[j], tag_name@),
            None => forall|k: int|
                0 <= k < bindings_helper.setup_bindings@.len() ==> !binding_matches(
                    #[trigger] bindings_helper.setup_bindings@[k],
                    tag_name@,
                ),
        },
        all_ascii(tag_name@) ==> spec_pascal_case(tag_name@) == ascii_dash_case_from(tag_name@, 0, true)
            && spec_camel_case(tag_name@) == ascii_dash_case_from(tag_name@, 0, false),
{
    // `component-name`s like that should be transformed to `ComponentName`s
    let mut searched_pascal = String::new();
    to_pascal_case(tag_name, &mut searched_pascal);

    // and to `componentName`
    let mut searched_camel = String::new();
    to_camel_case(tag_name, &mut searched_camel);

    let bindings = &bindings_helper.setup_bindings;
    let mut k: usize = 0;
    while k < bindings.len()
        invariant
            bindings@ == bindings_helper.setup_bindings@,
            searched_pascal@ == spec_pascal_case(tag_name@),
            searched_camel@ == spec_camel_case(tag_name@),
            all_ascii(tag_name@) ==> spec_pascal_case(tag_name@) == ascii_dash_case_from(tag_name@, 0, true)
                && spec_camel_case(tag_name@) == ascii_dash_case_from(tag_name@, 0, false),
            k <= bindings.len(),
            forall|j: int| 0 <= j < k ==> !binding_matches(#[trigger] bindings@[j], tag_name@),
        decreases bindings.len() - k,
    {
        let binding = &bindings[k];
        if str_eq(binding.sym.as_str(), searched_pascal.as_str()) || str_eq(binding.sym.as_str(), searched_camel.as_str()) {
            return Some(binding);
        }
        k = k + 1;
    }
    None
}

/// `component` and `Component` are dynamic components.
pub fn is_component_tag(tag: &StartingTag) -> (r: bool)
    ensures
        r == (tag.tag_name@ == "component"@ || tag.tag_name@ == "Component"@),
{
    str_eq(tag.tag_name.as_str(), "component") || str_eq(tag.tag_name.as_str(), "Component")
}

/// An event handler prop: `on` followed by an ASCII uppercase letter.
pub open spec fn spec_is_on(name: Seq<char>) -> bool {
    name.len() >= 3 && name[0] == 'o' && name[1] == 'n' && 'A' <= name[2] && name[2] <= 'Z'
}

pub fn is_on(name: &str) -> (r: bool)
    ensures
        r == spec_is_on(name@),
{
    let chars = chars_of(name);
    chars.len() >= 3 && chars[0] == 'o' && chars[1] == 'n' && 'A' <= chars[2] && chars[2] <= 'Z'
}

/// Props that are handled by the runtime itself.
pub open spec fn reserved_props() -> Seq<Seq<char>> {
    seq![
        "key"@, "ref"@, "ref_for"@, "ref_key"@, "onVnodeBeforeMount"@, "onVnodeMounted"@,
        "onVnodeBeforeUpdate"@, "onVnodeUpdated"@, "onVnodeBeforeUnmount"@, "onVnodeUnmounted"@
    ]
}

pub fn is_reserved_prop(key: &str) -> (r: bool)
    ensures
        r == reserved_props().contains(key@),
{
    let r = str_eq(key, "key") || str_eq(key, "ref") || str_eq(key, "ref_for") || str_eq(key, "ref_key")
        || str_eq(key, "onVnodeBeforeMount") || str_eq(key, "onVnodeMounted") || str_eq(
        key,
        "onVnodeBeforeUpdate",
    ) || str_eq(key, "onVnodeUpdated") || str_eq(key, "onVnodeBeforeUnmount") || str_eq(
        key,
        "onVnodeUnmounted",
    );
    proof {
        let rp = reserved_props();
        if r {
            if key@ == "key"@ { assert(rp[0] == key@); }
            if key@ == "ref"@ { assert(rp[1] == key@); }
            if key@ == "ref_for"@ { assert(rp[2] == key@); }
            if key@ == "ref_key"@ { assert(rp[3] == key@); }
            if key@ == "onVnodeBeforeMount"@ { assert(rp[4] == key@); }
            if key@ == "onVnodeMounted"@ { assert(rp[5] == key@); }
            if key@ == "onVnodeBeforeUpdate"@ { assert(rp[6] == key@); }
            if key@ == "onVnodeUpdated"@ { assert(rp[7] == key@); }
            if key@ == "onVnodeBeforeUnmount"@ { assert(rp[8] == key@); }
            if key@ == "onVnodeUnmounted"@ { assert(rp[9] == key@); }
        }
    }
    r
}

/// The first binding of `bs` with the property `p`.
pub open spec fn first_where(bs: Seq<SetupBinding>, p: spec_fn(SetupBinding) -> bool) -> Option<SetupBinding>
    decreases bs.len(),
{
    if bs.len() == 0 {
        None
    } else if p(bs[0]) {
        Some(bs[0])
    } else {
        first_where(bs.skip(1), p)
    }
}

pub proof fn lemma_first_where(bs: Seq<SetupBinding>, p: spec_fn(SetupBinding) -> bool, k: int)
    requires
        0 <= k <= bs.len(),
        forall|j: int| 0 <= j < k ==> !p(#[trigger] bs[j]),
    ensures
        first_where(bs, p) == if k < bs.len() && p(bs[k]) {
            Some(bs[k])
        } else {
            first_where(bs.skip(k), p)
        },
    decreases k,
{
    if k == 0 {
        assert(bs.skip(0) =~= bs);
    } else {
        assert(!p(bs[0]));
        assert forall|j: int| 0 <= j < k - 1 implies !p(#[trigger] bs.skip(1)[j]) by {
            assert(bs.skip(1)[j] == bs[j + 1]);
        }
        lemma_first_where(bs.skip(1), p, k - 1);
        assert(bs.skip(1).skip(k - 1) =~= bs.skip(k));
        if k < bs.len() {
            assert(bs.skip(1)[k - 1] == bs[k]);
        }
    }
}

/// The binding a component tag (without namespace) refers to.
pub open spec fn component_lookup(bs: Seq<SetupBinding>, tag_name: Seq<char>) -> Option<SetupBinding> {
    first_where(bs, |b: SetupBinding| binding_matches(b, tag_name))
}

/// Whether a binding is what a directive names: `v` or `V` followed by the
/// directive name in PascalCase.
pub open spec fn directive_binding_matches(b: SetupBinding, name: Seq<char>) -> bool {
    b.sym@.len() >= 1 && (b.sym@[0] == 'v' || b.sym@[0] == 'V') && b.sym@.skip(1) == spec_pascal_case(name)
}

pub open spec fn directive_lookup(bs: Seq<SetupBinding>, name: Seq<char>) -> Option<SetupBinding> {
    first_where(bs, |b: SetupBinding| directive_binding_matches(b, name))
}

/// Whether a directive name holds `[` or `]`, which no identifier can.
pub open spec fn has_bracket(name: Seq<char>) -> bool {
    exists|k: int| 0 <= k < name.len() && (name[k] == '[' || name[k] == ']')
}

/// The index of the first `.` of `s` at or after `i`, or the length of `s`.
pub open spec fn dot_index(s: Seq<char>, i: int) -> int
    decreases s.len() - i,
{
    if i < 0 || i >= s.len() {
        s.len() as int
    } else if s[i] == '.' {
        i
    } else {
        dot_index(s, i + 1)
    }
}

/// What a resolution is made of: the binding, its strategy and the member.
pub open spec fn resolved_view(r: ResolvedIdent) -> (Seq<char>, Option<StrategyView>, Option<Seq<char>>) {
    (
        r.sym@,
        match r.strategy {
            Some(s) => Some(strategy_view(s)),
            None => None,
        },
        match r.member {
            Some(m) => Some(m@),
            None => None,
        },
    )
}

pub open spec fn component_view(c: ComponentBinding) -> Option<(Seq<char>, Option<StrategyView>, Option<Seq<char>>)> {
    match c {
        ComponentBinding::Resolved(r) => Some(resolved_view(r)),
        ComponentBinding::Unresolved => None,
    }
}

pub open spec fn directive_view(c: CustomDirectiveBinding) -> Option<(Seq<char>, Option<StrategyView>, Option<Seq<char>>)> {
    match c {
        CustomDirectiveBinding::Resolved(r) => Some(resolved_view(r)),
        CustomDirectiveBinding::Unresolved => None,
    }
}

pub open spec fn components_view(v: Seq<(String, ComponentBinding)>) -> Seq<(Seq<char>, Option<(Seq<char>, Option<StrategyView>, Option<Seq<char>>)>)> {
    v.map_values(|p: (String, ComponentBinding)| (p.0@, component_view(p.1)))
}

pub open spec fn directives_view(v: Seq<(String, CustomDirectiveBinding)>) -> Seq<(Seq<char>, Option<(Seq<char>, Option<StrategyView>, Option<Seq<char>>)>)> {
    v.map_values(|p: (String, CustomDirectiveBinding)| (p.0@, directive_view(p.1)))
}

pub open spec fn has_key<X>(v: Seq<(Seq<char>, X)>, key: Seq<char>) -> bool {
    exists|i: int| 0 <= i < v.len() && v[i].0 == key
}

pub open spec fn is_inline(h: BindingsHelper) -> bool {
    h.template_generation_mode == TemplateGenerationMode::Inline
}

/// The cache of bindings after `sym` is looked up from `scope`.
pub open spec fn cache_after(h: BindingsHelper, scope: u32, sym: Seq<char>, n: nat) -> Seq<(Seq<char>, BindingTypes)> {
    let (t, remembered) = spec_binding_type(h, scope, sym, n);
    if remembered {
        cache_view(h.used_bindings@).push((sym, t))
    } else {
        cache_view(h.used_bindings@)
    }
}

/// No binding is an aliased prop, whose prefix is unknown outside inline mode.
pub open spec fn no_aliased_props(h: BindingsHelper) -> bool {
    &&& forall|k: int| 0 <= k < h.setup_bindings@.len() ==> (#[trigger] h.setup_bindings@[k]).binding_type != BindingTypes::PropsAliased
    &&& forall|k: int| 0 <= k < options_setup(h.options_api_bindings).len() ==> (#[trigger] options_setup(h.options_api_bindings)[k]).binding_type != BindingTypes::PropsAliased
    &&& forall|k: int| 0 <= k < h.used_bindings@.len() ==> (#[trigger] h.used_bindings@[k]).1 != BindingTypes::PropsAliased
}

pub proof fn lemma_find_type_in(v: Seq<(Seq<char>, BindingTypes)>, name: Seq<char>)
    ensures
        find_type(v, name) matches Some(t) ==> exists|k: int| 0 <= k < v.len() && v[k].1 == t,
    decreases v.len(),
{
    if v.len() > 0 && v[0].0 != name {
        lemma_find_type_in(v.skip(1), name);
        if let Some(t) = find_type(v.skip(1), name) {
            let k = choose|k: int| 0 <= k < v.skip(1).len() && v.skip(1)[k].1 == t;
            assert(v[k + 1].1 == t);
        }
    }
}

/// Without aliased props, no lookup gives one.
pub proof fn lemma_no_aliased_lookup(h: BindingsHelper, scope: u32, sym: Seq<char>, n: nat)
    requires
        no_aliased_props(h),
    ensures
        spec_binding_type(h, scope, sym, n).0 != BindingTypes::PropsAliased,
{
    lemma_find_type_in(cache_view(h.used_bindings@), sym);
    let all = h.setup_bindings@ + options_setup(h.options_api_bindings);
    lemma_find_type_in(bindings_view(all), sym);
    if let Some(t) = find_type(bindings_view(all), sym) {
        let k = choose|k: int| 0 <= k < bindings_view(all).len() && bindings_view(all)[k].1 == t;
        if k < h.setup_bindings@.len() {
            assert(all[k] == h.setup_bindings@[k]);
        } else {
            assert(all[k] == options_setup(h.options_api_bindings)[k - h.setup_bindings@.len()]);
        }
    }
    if let Some(t) = find_type(cache_view(h.used_bindings@), sym) {
        let k = choose|k: int| 0 <= k < cache_view(h.used_bindings@).len() && cache_view(h.used_bindings@)[k].1 == t;
        assert(h.used_bindings@[k].1 == t);
    }
}

/// What a component tag resolves to: `Foo.Bar` looks up `Foo` and takes its
/// member `Bar`; a binding of a component is used as it is, any other binding is
/// written as a lone identifier is.
pub open spec fn spec_resolve_component(h: BindingsHelper, scope: u32, tag_name: Seq<char>, n: nat) -> Option<(Seq<char>, Option<StrategyView>, Option<Seq<char>>)> {
    let d = dot_index(tag_name, 0);
    let member = if d < tag_name.len() { Some(tag_name.skip(d + 1)) } else { None };
    match component_lookup(h.setup_bindings@, tag_name.take(d)) {
        Some(b) => Some((
            b.sym@,
            if b.binding_type == BindingTypes::Component { None } else { Some(plain_ident_strategy(h, scope, is_inline(h), b.sym@, n)) },
            member,
        )),
        None => None,
    }
}

/// The cache of bindings after a component tag is resolved.
pub open spec fn cache_after_component(h: BindingsHelper, scope: u32, tag_name: Seq<char>, n: nat) -> Seq<(Seq<char>, BindingTypes)> {
    match component_lookup(h.setup_bindings@, tag_name.take(dot_index(tag_name, 0))) {
        Some(b) => if b.binding_type == BindingTypes::Component {
            cache_view(h.used_bindings@)
        } else {
            cache_after(h, scope, b.sym@, n)
        },
        None => cache_view(h.used_bindings@),
    }
}

/// What a custom directive resolves to: the binding `vName` (or `VName`) written
/// as a lone identifier is.
pub open spec fn spec_resolve_directive(h: BindingsHelper, scope: u32, name: Seq<char>, n: nat) -> Option<(Seq<char>, Option<StrategyView>, Option<Seq<char>>)> {
    match directive_lookup(h.setup_bindings@, name) {
        Some(b) => Some((b.sym@, Some(plain_ident_strategy(h, scope, is_inline(h), b.sym@, n)), None)),
        None => None,
    }
}

pub open spec fn cache_after_directive(h: BindingsHelper, scope: u32, name: Seq<char>, n: nat) -> Seq<(Seq<char>, BindingTypes)> {
    match directive_lookup(h.setup_bindings@, name) {
        Some(b) => cache_after(h, scope, b.sym@, n),
        None => cache_view(h.used_bindings@),
    }
}

/// The index of the first `.` of `s`, or its length.
fn find_dot(s: &Vec<char>) -> (r: usize)
    ensures
        r == dot_index(s@, 0),
        r <= s.len(),
{
    let mut i: usize = 0;
    while i < s.len()
        invariant
            i <= s.len(),
            dot_index(s@, 0) == dot_index(s@, i as int),
        decreases s.len() - i,
    {
        if s[i] == '.' {
            return i;
        }
        i = i + 1;
    }
    i
}

/// Whether one of the first `k` entries has `key`.
fn find_key<X>(entries: &Vec<(String, X)>, key: &str) -> (r: bool)
    ensures
        r == exists|i: int| 0 <= i < entries@.len() && entries@[i].0@ == key@,
{
    let mut i: usize = 0;
    while i < entries.len()
        invariant
            i <= entries.len(),
            forall|j: int| 0 <= j < i ==> entries@[j].0@ != key@,
        decreases entries.len() - i,
    {
        if str_eq(entries[i].0.as_str(), key) {
            return true;
        }
        i = i + 1;
    }
    false
}

/// Whether `sym` is `v` or `V` followed by `rest`.
fn is_v_prefixed(sym: &str, rest: &str) -> (r: bool)
    ensures
        r == (sym@.len() >= 1 && (sym@[0] == 'v' || sym@[0] == 'V') && sym@.skip(1) == rest@),
{
    let s = chars_of(sym);
    let t = chars_of(rest);
    if s.len() == 0 || !(s[0] == 'v' || s[0] == 'V') || s.len() - 1 != t.len() {
        return false;
    }
    let mut i: usize = 0;
    while i < t.len()
        invariant
            s@ == sym@,
            t@ == rest@,
            s.len() == t.len() + 1,
            i <= t.len(),
            forall|j: int| 0 <= j < i ==> s@[j + 1] == t@[j],
        decreases t.len() - i,
    {
        if s[i + 1] != t[i] {
            assert(sym@.skip(1)[i as int] != rest@[i as int]);
            return false;
        }
        i = i + 1;
    }
    assert(sym@.skip(1) =~= rest@);
    true
}

/// Whether `name` holds `[` or `]`.
fn contains_bracket(name: &str) -> (r: bool)
    ensures
        r == has_bracket(name@),
{
    let s = chars_of(name);
    let mut i: usize = 0;
    while i < s.len()
        invariant
            s@ == name@,
            i <= s.len(),
            forall|j: int| 0 <= j < i ==> !(s@[j] == '[' || s@[j] == ']'),
        decreases s.len() - i,
    {
        if s[i] == '[' || s[i] == ']' {
            return true;
        }
        i = i + 1;
    }
    false
}

/// Finds the binding of a custom directive: `v-custom-directive` is looked up as
/// `vCustomDirective` or `VCustomDirective`; the first binding that matches is given.
pub fn find_directive_binding<'a>(bindings: &'a Vec<SetupBinding>, directive_name: &str) -> (r: Option<&'a SetupBinding>)
    ensures
        match r {
            Some(b) => directive_lookup(bindings@, directive_name@) == Some(*b),
            None => directive_lookup(bindings@, directive_name@) is None,
        },
{
    // Directive bindings should always have a name in format `vCustomDirective` or `VCustomDirective`
    let mut normalized = String::new();
    to_pascal_case(directive_name, &mut normalized);
    let ghost p = |b: SetupBinding| directive_binding_matches(b, directive_name@);
    let mut k: usize = 0;
    while k < bindings.len()
        invariant
            k <= bindings.len(),
            normalized@ == spec_pascal_case(directive_name@),
            p == (|b: SetupBinding| directive_binding_matches(b, directive_name@)),
            forall|j: int| 0 <= j < k ==> !p(#[trigger] bindings@[j]),
        decreases bindings.len() - k,
    {
        if is_v_prefixed(bindings[k].sym.as_str(), normalized.as_str()) {
            proof {
                lemma_first_where(bindings@, p, k as int);
            }
            return Some(&bindings[k]);
        }
        k = k + 1;
    }
    proof {
        lemma_first_where(bindings@, p, k as int);
        assert(bindings@.skip(k as int).len() == 0);
    }
    None
}

impl BindingsHelper {
    /// Fuzzy-matches the component name to a binding name, once per tag name: the
    /// resolution (or that there is none) is recorded in `components`.
    pub fn maybe_resolve_component(&mut self, tag_name: &str, current_scope: u32)
        requires
            exists|n: nat| chain_ends(old(self).template_scopes@, current_scope as int, n),
            is_inline(*old(self)) || no_aliased_props(*old(self)),
        ensures
            has_key(components_view(old(self).components@), tag_name@) ==> final(self).components == old(self).components
                && final(self).used_bindings == old(self).used_bindings,
            !has_key(components_view(old(self).components@), tag_name@) ==> forall|n: nat|
                chain_ends(old(self).template_scopes@, current_scope as int, n) ==> {
                    &&& components_view(final(self).components@) == components_view(old(self).components@).push(
                        (tag_name@, spec_resolve_component(*old(self), current_scope, tag_name@, n)))
                    &&& cache_view(final(self).used_bindings@) == cache_after_component(*old(self), current_scope, tag_name@, n)
                },
            final(self).setup_bindings == old(self).setup_bindings,
            final(self).options_api_bindings == old(self).options_api_bindings,
            final(self).template_scopes == old(self).template_scopes,
            final(self).template_generation_mode == old(self).template_generation_mode,
            final(self).custom_directives == old(self).custom_directives,
    {
        // Check the existing resolutions: codegen handles the runtime resolution
        if find_key(&self.components, tag_name) {
            proof {
                let i = choose|i: int| 0 <= i < self.components@.len() && self.components@[i].0@ == tag_name@;
                assert(components_view(self.components@)[i].0 == tag_name@);
            }
            return;
        }
        proof {
            assert forall|i: int| 0 <= i < components_view(self.components@).len() implies components_view(self.components@)[i].0 != tag_name@ by {
                assert(components_view(self.components@)[i].0 == self.components@[i].0@);
            }
        }
        let ghost h0 = *self;

        // If the tag name contains a dot, it won't be found in the bindings - look directly for a namespaced component
        // Example: `<Foo.Bar>`
        let chars = chars_of(tag_name);
        let dot_idx = find_dot(&chars);
        let base = string_from_range(&chars, 0, dot_idx);
        proof {
            assert(base@ =~= tag_name@.take(dot_idx as int));
        }
        let member = if dot_idx < chars.len() {
            let m = string_from_range(&chars, dot_idx + 1, chars.len());
            assert(m@ =~= tag_name@.skip(dot_idx + 1));
            Some(m)
        } else {
            None
        };

        let found = match find_binding(self, base.as_str()) {
            Some(b) => Some((to_owned_string(b.sym.as_str()), b.binding_type)),
            None => None,
        };
        proof {
            let p = |b: SetupBinding| binding_matches(b, base@);
            if found is Some {
                let f = found->0;
                let k = choose|k: int| 0 <= k < self.setup_bindings@.len() && self.setup_bindings@[k].sym@ == f.0@
                    && self.setup_bindings@[k].binding_type == f.1 && binding_matches(self.setup_bindings@[k], base@)
                    && forall|j: int| 0 <= j < k ==> !binding_matches(#[trigger] self.setup_bindings@[j], base@);
                lemma_first_where(self.setup_bindings@, p, k);
            } else {
                lemma_first_where(self.setup_bindings@, p, self.setup_bindings@.len() as int);
                assert(self.setup_bindings@.skip(self.setup_bindings@.len() as int).len() == 0);
            }
        }
        let binding = match found {
            Some((sym, binding_type)) => {
                // For `Component` binding types, do not transform
                let strategy = if binding_type == BindingTypes::Component {
                    None
                } else {
                    proof {
                        if !is_inline(h0) {
                            assert forall|n: nat| chain_ends(h0.template_scopes@, current_scope as int, n) implies
                                spec_binding_type(h0, current_scope, sym@, n).0 != BindingTypes::PropsAliased by {
                                lemma_no_aliased_lookup(h0, current_scope, sym@, n);
                            }
                        }
                    }
                    Some(plain_ident_transform_strategy(self, current_scope, sym.as_str()))
                };
                ComponentBinding::Resolved(ResolvedIdent { sym, strategy, member })
            },
            None => ComponentBinding::Unresolved,
        };
        self.components.push((to_owned_string(tag_name), binding));
        assert(components_view(self.components@) =~= components_view(h0.components@).push(
            (tag_name@, component_view(binding))));
    }

    /// Fuzzy-matches the directive name to a binding name, once per directive name:
    /// the resolution (or that there is none) is recorded in `custom_directives`.
    /// A name with `[` or `]` cannot be an identifier and is left alone.
    pub fn maybe_resolve_directive(&mut self, directive_name: &str, current_scope: u32)
        requires
            exists|n: nat| chain_ends(old(self).template_scopes@, current_scope as int, n),
            is_inline(*old(self)) || no_aliased_props(*old(self)),
        ensures
            has_key(directives_view(old(self).custom_directives@), directive_name@) || has_bracket(directive_name@)
                ==> final(self).custom_directives == old(self).custom_directives && final(self).used_bindings == old(self).used_bindings,
            !has_key(directives_view(old(self).custom_directives@), directive_name@) && !has_bracket(directive_name@) ==> forall|n: nat|
                chain_ends(old(self).template_scopes@, current_scope as int, n) ==> {
                    &&& directives_view(final(self).custom_directives@) == directives_view(old(self).custom_directives@).push(
                        (directive_name@, spec_resolve_directive(*old(self), current_scope, directive_name@, n)))
                    &&& cache_view(final(self).used_bindings@) == cache_after_directive(*old(self), current_scope, directive_name@, n)
                },
            final(self).setup_bindings == old(self).setup_bindings,
            final(self).options_api_bindings == old(self).options_api_bindings,
            final(self).template_scopes == old(self).template_scopes,
            final(self).template_generation_mode == old(self).template_generation_mode,
            final(self).components == old(self).components,
    {
        // Check the existing resolutions: codegen handles the runtime resolution
        if find_key(&self.custom_directives, directive_name) {
            proof {
                let i = choose|i: int| 0 <= i < self.custom_directives@.len() && self.custom_directives@[i].0@ == directive_name@;
                assert(directives_view(self.custom_directives@)[i].0 == directive_name@);
            }
            return;
        }
        proof {
            assert forall|i: int| 0 <= i < directives_view(self.custom_directives@).len() implies directives_view(self.custom_directives@)[i].0 != directive_name@ by {
                assert(directives_view(self.custom_directives@)[i].0 == self.custom_directives@[i].0@);
            }
        }
        // Some special symbols in the directive name just make it impossible to create a js variable
        if contains_bracket(directive_name) {
            return;
        }
        let ghost h0 = *self;

        let found = match find_directive_binding(&self.setup_bindings, directive_name) {
            Some(b) => Some(to_owned_string(b.sym.as_str())),
            None => None,
        };
        let binding = match found {
            Some(sym) => {
                proof {
                    if !is_inline(h0) {
                        assert forall|n: nat| chain_ends(h0.template_scopes@, current_scope as int, n) implies
                            spec_binding_type(h0, current_scope, sym@, n).0 != BindingTypes::PropsAliased by {
                            lemma_no_aliased_lookup(h0, current_scope, sym@, n);
                        }
                    }
                }
                // Transform the identifier
                let strategy = plain_ident_transform_strategy(self, current_scope, sym.as_str());
                CustomDirectiveBinding::Resolved(ResolvedIdent { sym, strategy: Some(strategy), member: None })
            },
            None => CustomDirectiveBinding::Unresolved,
        };
        self.custom_directives.push((to_owned_string(directive_name), binding));
        assert(directives_view(self.custom_directives@) =~= directives_view(h0.custom_directives@).push(
            (directive_name@, directive_view(binding))));
    }
}

impl<'s> TemplateVisitor<'s> {
    /// Fuzzy-matches the component name to a binding name, in the current scope.
    pub fn maybe_resolve_component(&mut self, tag_name: &str)
        requires
            exists|n: nat| chain_ends(old(self).ctx.bindings_helper.template_scopes@, old(self).current_scope as int, n),
            is_inline(old(self).ctx.bindings_helper) || no_aliased_props(old(self).ctx.bindings_helper),
        ensures
            has_key(components_view(old(self).ctx.bindings_helper.components@), tag_name@) ==> final(self).ctx.bindings_helper.components
                == old(self).ctx.bindings_helper.components,
            !has_key(components_view(old(self).ctx.bindings_helper.components@), tag_name@) ==> forall|n: nat|
                chain_ends(old(self).ctx.bindings_helper.template_scopes@, old(self).current_scope as int, n)
                    ==> components_view(final(self).ctx.bindings_helper.components@) == components_view(
                    old(self).ctx.bindings_helper.components@,
                ).push((tag_name@, spec_resolve_component(old(self).ctx.bindings_helper, old(self).current_scope, tag_name@, n))),
            final(self).current_scope == old(self).current_scope,
    {
        let scope = self.current_scope;
        self.ctx.bindings_helper.maybe_resolve_component(tag_name, scope);
    }

    /// Fuzzy-matches the directive name to a binding name, in the current scope.
    pub fn maybe_resolve_directive(&mut self, directive_name: &str)
        requires
            exists|n: nat| chain_ends(old(self).ctx.bindings_helper.template_scopes@, old(self).current_scope as int, n),
            is_inline(old(self).ctx.bindings_helper) || no_aliased_props(old(self).ctx.bindings_helper),
        ensures
            has_key(directives_view(old(self).ctx.bindings_helper.custom_directives@), directive_name@) || has_bracket(directive_name@)
                ==> final(self).ctx.bindings_helper.custom_directives == old(self).ctx.bindings_helper.custom_directives,
            !has_key(directives_view(old(self).ctx.bindings_helper.custom_directives@), directive_name@) && !has_bracket(directive_name@)
                ==> forall|n: nat| chain_ends(old(self).ctx.bindings_helper.template_scopes@, old(self).current_scope as int, n)
                    ==> directives_view(final(self).ctx.bindings_helper.custom_directives@) == directives_view(
                    old(self).ctx.bindings_helper.custom_directives@,
                ).push((directive_name@, spec_resolve_directive(old(self).ctx.bindings_helper, old(self).current_scope, directive_name@, n))),
            final(self).current_scope == old(self).current_scope,
    {
        let scope = self.current_scope;
        self.ctx.bindings_helper.maybe_resolve_directive(directive_name, scope);
    }
}

} // verus!
