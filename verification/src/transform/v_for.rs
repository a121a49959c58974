//! `v-for`: the key of the fragment, its patch flag, and the template scope of its aliases.
use vstd::prelude::*;

use crate::analyzer::scope::Scope;
use crate::analyzer::scope_walk::parents_before;
use crate::parser::attributes::strings_view;
use crate::compiler::codegen::{compile_regex, regex_capture_group};
use crate::compiler::codegen_elements::{trim_end, trim_start};
use crate::compiler::gen_spec::{regex_capture, regex_is_valid, spec_trim};
use crate::text::{chars_of, str_eq, string_from_range, to_owned_string};
use crate::transform::collect_vars::{collect_variables, pat_idents, JsPat};
use crate::transform::context::TransformSfcContext;

verus! {

/// An attribute of a `v-for` element, as far as finding the key goes.
pub enum ForKeyAttr {
    /// `name="value"`
    Regular { name: String, value: String },
    /// `:name="value"`, or `:["name"]="value"`: a binding whose name is known
    Bind { name: String, value: String },
    /// Any other attribute or binding
    Other,
}

/// The key of a `v-for` fragment: a string, or the expression of a binding.
pub enum ForKey {
    Literal(String),
    Bound(String),
}

/// The key as whether it is a string, and its text.
pub open spec fn key_view(k: ForKey) -> (bool, Seq<char>) {
    match k {
        ForKey::Literal(s) => (true, s@),
        ForKey::Bound(e) => (false, e@),
    }
}

pub open spec fn is_key_attr(a: ForKeyAttr) -> bool {
    match a {
        ForKeyAttr::Regular { name, .. } => name@ == "key"@,
        ForKeyAttr::Bind { name, .. } => name@ == "key"@,
        ForKeyAttr::Other => false,
    }
}

/// Whether there is a key, and the key from the first `key` attribute or binding from
/// `i` on: an empty `key=""` gives none.
pub open spec fn spec_find_for_key(attrs: Seq<ForKeyAttr>, i: int) -> (bool, Option<(bool, Seq<char>)>)
    decreases attrs.len() - i,
{
    if i < 0 || i >= attrs.len() {
        (false, None)
    } else if is_key_attr(attrs[i]) {
        match attrs[i] {
            ForKeyAttr::Regular { value, .. } => (true, if value@.len() == 0 {
                None
            } else {
                Some((true, value@))
            }),
            ForKeyAttr::Bind { value, .. } => (true, Some((false, value@))),
            ForKeyAttr::Other => (false, None),
        }
    } else {
        spec_find_for_key(attrs, i + 1)
    }
}

pub open spec fn opt_key_view(k: Option<ForKey>) -> Option<(bool, Seq<char>)> {
    match k {
        Some(k) => Some(key_view(k)),
        None => None,
    }
}

/// The key of the `v-for` element, from its first `key` attribute or binding.
pub fn find_for_key(attrs: &Vec<ForKeyAttr>) -> (r: (bool, Option<ForKey>))
    ensures
        (r.0, opt_key_view(r.1)) == spec_find_for_key(attrs@, 0),
{
    let mut i: usize = 0;
    while i < attrs.len()
        invariant
            i <= attrs.len(),
            spec_find_for_key(attrs@, 0) == spec_find_for_key(attrs@, i as int),
        decreases attrs.len() - i,
    {
        proof {
            reveal_strlit("key");
            reveal_strlit("");
        }
        match &attrs[i] {
            ForKeyAttr::Regular { name, value } => {
                if str_eq(name.as_str(), "key") {
                    assert(value@.len() == 0 <==> value@ =~= ""@);
                    let key = if str_eq(value.as_str(), "") {
                        None
                    } else {
                        Some(ForKey::Literal(to_owned_string(value.as_str())))
                    };
                    return (true, key);
                }
            },
            ForKeyAttr::Bind { name, value } => {
                if str_eq(name.as_str(), "key") {
                    return (true, Some(ForKey::Bound(to_owned_string(value.as_str()))));
                }
            },
            ForKeyAttr::Other => {},
        }
        i = i + 1;
    }
    (false, None)
}

/// How the children of a `v-for` fragment are patched.
#[derive(Clone, Copy, PartialEq, Eq, Structural, Debug)]
pub enum FragmentKind {
    /// The source is a literal: the fragment never changes its children
    Stable,
    /// The children are keyed
    Keyed,
    Unkeyed,
}

pub open spec fn spec_fragment_kind(source_is_literal: bool, has_key: bool) -> FragmentKind {
    if source_is_literal {
        FragmentKind::Stable
    } else if has_key {
        FragmentKind::Keyed
    } else {
        FragmentKind::Unkeyed
    }
}

pub fn fragment_kind(source_is_literal: bool, has_key: bool) -> (r: FragmentKind)
    ensures
        r == spec_fragment_kind(source_is_literal, has_key),
{
    if source_is_literal {
        FragmentKind::Stable
    } else if has_key {
        FragmentKind::Keyed
    } else {
        FragmentKind::Unkeyed
    }
}

/// The aliases of `v-for="(value, key, index) in source"`.
pub struct ForAliases {
    pub value: JsPat,
    pub key: Option<JsPat>,
    pub index: Option<JsPat>,
}

pub open spec fn opt_idents(p: Option<JsPat>) -> Seq<Seq<char>> {
    match p {
        Some(p) => pat_idents(p),
        None => Seq::empty(),
    }
}

/// The variables the aliases bring in, value first, then key, then index.
pub open spec fn alias_idents(a: ForAliases) -> Seq<Seq<char>> {
    pat_idents(a.value) + opt_idents(a.key) + opt_idents(a.index)
}

/// What `process_for` decided for the fragment.
pub struct ForPlan {
    /// The template scope of the aliases
    pub template_scope: u32,
    pub kind: FragmentKind,
    /// Tracking is turned off unless the fragment is stable
    pub disable_tracking: bool,
    pub key: Option<ForKey>,
}

/// Processes a `v-for`: opens a template scope under `parent_scope` with the
/// variables of the aliases, enters the `v-for`, and decides the fragment's kind
/// from its source and key.
pub fn process_for(
    ctx: &mut TransformSfcContext,
    parent_scope: u32,
    attrs: &Vec<ForKeyAttr>,
    aliases: &ForAliases,
    source_is_literal: bool,
) -> (r: ForPlan)
    requires
        old(ctx).bindings_helper.template_scopes@.len() < u32::MAX,
        old(ctx).directive_scopes.v_for < u8::MAX,
    ensures
        ({
            let scopes0 = old(ctx).bindings_helper.template_scopes@;
            let scopes = final(ctx).bindings_helper.template_scopes@;
            &&& r.template_scope == scopes0.len()
            &&& scopes.len() == scopes0.len() + 1
            &&& forall|j: int| 0 <= j < scopes0.len() ==> #[trigger] scopes[j] == scopes0[j]
            &&& scopes[r.template_scope as int].parent == parent_scope
            &&& strings_view(scopes[r.template_scope as int].variables@) == alias_idents(*aliases)
        }),
        parents_before(old(ctx).bindings_helper.template_scopes@) && parent_scope < old(
            ctx,
        ).bindings_helper.template_scopes@.len() ==> parents_before(final(ctx).bindings_helper.template_scopes@),
        final(ctx).directive_scopes.v_for == old(ctx).directive_scopes.v_for + 1,
        final(ctx).directive_scopes.v_slot == old(ctx).directive_scopes.v_slot,
        ({
            let (has_key, key) = spec_find_for_key(attrs@, 0);
            &&& opt_key_view(r.key) == key
            &&& r.kind == spec_fragment_kind(source_is_literal, has_key)
        }),
        r.disable_tracking == !source_is_literal,
        final(ctx).bindings_helper.setup_bindings == old(ctx).bindings_helper.setup_bindings,
        final(ctx).bindings_helper.options_api_bindings == old(ctx).bindings_helper.options_api_bindings,
        final(ctx).bindings_helper.used_bindings == old(ctx).bindings_helper.used_bindings,
        final(ctx).bindings_helper.template_generation_mode == old(ctx).bindings_helper.template_generation_mode,
        final(ctx).bindings_helper.components == old(ctx).bindings_helper.components,
        final(ctx).bindings_helper.custom_directives == old(ctx).bindings_helper.custom_directives,
{
    let (has_key, key) = find_for_key(attrs);
    let kind = fragment_kind(source_is_literal, has_key);

    // Create new template scope
    let scope_to_use = ctx.bindings_helper.template_scopes.len() as u32;
    let mut scope = Scope { variables: Vec::new(), parent: parent_scope };

    // Get the iterator variables and collect their variables
    collect_variables(&aliases.value, &mut scope);
    if let Some(key_alias) = &aliases.key {
        collect_variables(key_alias, &mut scope);
    }
    if let Some(index_alias) = &aliases.index {
        collect_variables(index_alias, &mut scope);
    }
    assert(strings_view(scope.variables@) =~= alias_idents(*aliases));
    ctx.bindings_helper.template_scopes.push(scope);

    ctx.directive_scopes.v_for = ctx.directive_scopes.v_for + 1;

    ForPlan { template_scope: scope_to_use, kind, disable_tracking: !source_is_literal, key }
}

/// Leaves a `v-for`: its children are a block unless the fragment is stable and
/// no child needs one. Gives whether they are a block, and whether the child that
/// is not a block gets the `NEED_PATCH` flag.
pub fn post_transform_for(ctx: &mut TransformSfcContext, kind: FragmentKind, is_block_required: bool, needs_patch: bool) -> (r: (bool, bool))
    requires
        old(ctx).directive_scopes.v_for > 0,
    ensures
        final(ctx).directive_scopes.v_for == old(ctx).directive_scopes.v_for - 1,
        final(ctx).directive_scopes.v_slot == old(ctx).directive_scopes.v_slot,
        final(ctx).bindings_helper == old(ctx).bindings_helper,
        r.0 == (kind != FragmentKind::Stable || is_block_required),
        r.1 == (!r.0 && needs_patch),
{
    ctx.directive_scopes.v_for = ctx.directive_scopes.v_for - 1;
    let is_stable = kind == FragmentKind::Stable;
    let should_use_block = !is_stable || is_block_required;
    (should_use_block, !should_use_block && needs_patch)
}

/// The pattern of a `v-for` value: aliases, `in` or `of`, and the source.
pub open spec fn for_pattern() -> Seq<char> {
    "^(.+)\\s+(in|of)\\s+(.+)$"@
}

/// The aliases of a `v-for` value (what comes before ` in ` or ` of `), trimmed;
/// none when the value does not have that shape.
pub fn for_alias(value: &str) -> (r: Option<String>)
    ensures
        !regex_is_valid(for_pattern()) ==> r is None,
        regex_is_valid(for_pattern()) ==> match regex_capture(for_pattern(), value@, 1) {
            Some(g) => r matches Some(s) && s@ == spec_trim(g),
            None => r is None,
        },
{
    let re = match compile_regex("^(.+)\\s+(in|of)\\s+(.+)$") {
        Some(re) => re,
        None => return None,
    };
    let aliases = match regex_capture_group(&re, value, 1) {
        Some(g) => g,
        None => return None,
    };
    // We only care of the left hand side variables
    let chars = chars_of(aliases.as_str());
    let lo = trim_start(&chars);
    let hi = trim_end(&chars, lo);
    Some(string_from_range(&chars, lo, hi))
}

} // verus!
