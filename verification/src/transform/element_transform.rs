//! The scope that an element opens and the expressions of its directives and
//! bindings, rewritten in that scope.
use vstd::prelude::*;

use crate::analyzer::scope::{chain_ends, Scope};
use crate::analyzer::scope_walk::{lemma_parents_before_chain_ends, parents_before};
use crate::parser::attributes::strings_view;
use crate::transform::collect_vars::{collect_variables, pat_idents, JsPat};
use crate::transform::context::{BindingsHelper, TemplateGenerationMode, TransformSfcContext};
use crate::transform::expr_transform::{
    is_assign_target, lemma_rewrite_same_lookups, rewritten, same_lookups, update_handler_of, v_model_env, RewriteEnv,
    VModelArg, VModelDirective, scope_fuel, spec_binding_type, template_env, uses_bindings,
};
use crate::transform::resolutions::no_aliased_props;
use crate::transform::build_props::{PATCH_FULL_PROPS, PATCH_PROPS};
use crate::transform::script_expr::{copy_expr, expr_view, ExprV, ScriptExpr};
use crate::transform::v_for::{alias_idents, fragment_kind, spec_find_for_key, spec_fragment_kind, find_for_key, ForAliases,
    ForKeyAttr, FragmentKind};

verus! {

/// A `v-for`: its aliases and its source.
pub struct ForInput {
    pub aliases: ForAliases,
    pub source: ScriptExpr,
}

/// A `v-slot`: its value pattern and, when dynamic, its name.
pub struct SlotInput {
    pub value: Option<JsPat>,
    pub name: Option<ScriptExpr>,
}

/// A `v-bind`: its argument when dynamic, and its value.
pub struct BindInput {
    pub arg: Option<ScriptExpr>,
    pub value: ScriptExpr,
}

/// A custom directive: its name, its value and its dynamic argument.
pub struct CustomDirectiveInput {
    pub name: String,
    pub value: Option<ScriptExpr>,
    pub arg: Option<ScriptExpr>,
}

/// What the scope of an element depends on, and the expressions to rewrite in it.
pub struct ElementExprs {
    pub v_for: Option<ForInput>,
    pub v_slot: Option<SlotInput>,
    /// The attributes, as the key of a `v-for` is looked for among them
    pub key_attrs: Vec<ForKeyAttr>,
    pub binds: Vec<BindInput>,
    pub v_html: Option<ScriptExpr>,
    pub v_memo: Option<ScriptExpr>,
    pub v_show: Option<ScriptExpr>,
    pub v_text: Option<ScriptExpr>,
    pub custom: Vec<CustomDirectiveInput>,
    pub v_models: Vec<VModelDirective>,
}

/// What the transform decided for the element.
pub struct ElementScopePlan {
    /// The template scope of the element
    pub template_scope: u32,
    /// How the `v-for` fragment is patched, when there is one
    pub for_kind: Option<FragmentKind>,
    /// For each `v-bind`, whether its value uses bindings that change
    pub bind_dynamic: Vec<bool>,
    /// Whether the element has custom directives, which are applied at runtime
    pub has_runtime_directives: bool,
    /// The patch flags that the `v-model`s add
    pub model_flags: u32,
    /// The props that the `v-model`s make change, in order
    pub model_props: Vec<String>,
}

pub open spec fn opt_view(o: Option<ScriptExpr>) -> Option<ExprV> {
    match o {
        Some(e) => Some(expr_view(e)),
        None => None,
    }
}

/// The patch flag and the prop that a `v-model` adds: none for a value that
/// cannot be assigned to, full props for a dynamic argument, and otherwise its
/// argument (`modelValue` without one) as a prop that changes.
pub open spec fn model_hint(m: VModelDirective) -> (u32, Option<Seq<char>>) {
    if !is_assign_target(expr_view(m.value)) {
        (0, None)
    } else {
        match m.argument {
            Some(VModelArg::Dynamic(_)) => (PATCH_FULL_PROPS, None),
            Some(VModelArg::Static(n)) => (PATCH_PROPS, Some(n@)),
            None => (PATCH_PROPS, Some("modelValue"@)),
        }
    }
}

/// The flags of the first `k` `v-model`s.
pub open spec fn models_flags(ms: Seq<VModelDirective>, k: int) -> u32
    decreases k,
{
    if k <= 0 { 0 } else { models_flags(ms, k - 1) | model_hint(ms[k - 1]).0 }
}

/// The props of the first `k` `v-model`s.
pub open spec fn models_props(ms: Seq<VModelDirective>, k: int) -> Seq<Seq<char>>
    decreases k,
{
    if k <= 0 {
        Seq::empty()
    } else {
        models_props(ms, k - 1) + match model_hint(ms[k - 1]).1 {
            Some(p) => seq![p],
            None => Seq::empty(),
        }
    }
}

/// `m1` is the `v-model` `m0` transformed with the bindings `h` in the scope `s`.
pub open spec fn model_transformed(h: BindingsHelper, s: u32, m0: VModelDirective, m1: VModelDirective) -> bool {
    if !is_assign_target(expr_view(m0.value)) {
        &&& expr_view(m1.value) == expr_view(m0.value)
        &&& opt_view(m1.update_handler) == opt_view(m0.update_handler)
        &&& match m0.argument {
            Some(VModelArg::Dynamic(a0)) => m1.argument matches Some(VModelArg::Dynamic(a1)) && expr_view(a1) == expr_view(a0),
            Some(VModelArg::Static(n0)) => m1.argument matches Some(VModelArg::Static(n1)) && n1@ == n0@,
            None => m1.argument is None,
        }
    } else {
        &&& m1.update_handler matches Some(hd) && expr_view(hd) == rewritten(v_model_env(h, s), Seq::empty(), false,
            update_handler_of(expr_view(m0.value)))
        &&& expr_view(m1.value) == rewritten(template_env(h, s), Seq::empty(), false, expr_view(m0.value))
        &&& match m0.argument {
            Some(VModelArg::Dynamic(a0)) => m1.argument matches Some(VModelArg::Dynamic(a1))
                && expr_view(a1) == rewritten(template_env(h, s), Seq::empty(), false, expr_view(a0)),
            Some(VModelArg::Static(n0)) => m1.argument matches Some(VModelArg::Static(n1)) && n1@ == n0@,
            None => m1.argument is None,
        }
    }
}

fn copy_opt_expr(o: &Option<ScriptExpr>) -> (r: Option<ScriptExpr>)
    ensures
        opt_view(r) == opt_view(*o),
{
    match o {
        Some(e) => Some(copy_expr(e)),
        None => None,
    }
}

fn copy_v_model(m: &VModelDirective) -> (r: VModelDirective)
    ensures
        expr_view(r.value) == expr_view(m.value),
        opt_view(r.update_handler) == opt_view(m.update_handler),
        match m.argument {
            Some(VModelArg::Dynamic(a0)) => r.argument matches Some(VModelArg::Dynamic(a1)) && expr_view(a1) == expr_view(a0),
            Some(VModelArg::Static(n0)) => r.argument matches Some(VModelArg::Static(n1)) && n1@ == n0@,
            None => r.argument is None,
        },
{
    let argument = match &m.argument {
        Some(VModelArg::Dynamic(a)) => Some(VModelArg::Dynamic(copy_expr(a))),
        Some(VModelArg::Static(n)) => Some(VModelArg::Static(n.clone())),
        None => None,
    };
    VModelDirective { argument, value: copy_expr(&m.value), update_handler: copy_opt_expr(&m.update_handler) }
}

/// Transforms a `v-model` in the scope `s`, as the bindings `h0` would.
fn transform_model_in(ctx: &mut TransformSfcContext, m: &mut VModelDirective, s: u32, flags: &mut u32, props: &mut Vec<String>,
    Ghost(h0): Ghost<BindingsHelper>)
    requires
        tracks(old(ctx).bindings_helper, h0, s),
    ensures
        model_transformed(h0, s, *old(m), *final(m)),
        *final(flags) == *old(flags) | model_hint(*old(m)).0,
        strings_view(final(props)@) == strings_view(old(props)@) + match model_hint(*old(m)).1 {
            Some(p) => seq![p],
            None => Seq::empty(),
        },
        tracks(final(ctx).bindings_helper, h0, s),
        final(ctx).directive_scopes == old(ctx).directive_scopes,
{
    let ghost h1 = ctx.bindings_helper;
    let ghost m0 = *m;
    ctx.bindings_helper.transform_v_model(m, s, flags, props);
    proof {
        assert(same_lookups(template_env(h1, s), template_env(h0, s)));
        assert(same_lookups(v_model_env(h1, s), v_model_env(h0, s)));
        lemma_rewrite_same_lookups(template_env(h1, s), template_env(h0, s), Seq::empty(), false, expr_view(m0.value));
        lemma_rewrite_same_lookups(v_model_env(h1, s), v_model_env(h0, s), Seq::empty(), false, update_handler_of(expr_view(m0.value)));
        if let Some(VModelArg::Dynamic(a0)) = m0.argument {
            lemma_rewrite_same_lookups(template_env(h1, s), template_env(h0, s), Seq::empty(), false, expr_view(a0));
        }
        if !is_assign_target(expr_view(m0.value)) {
            let f0: u32 = *old(flags);
            assert(f0 | 0 == f0) by (bit_vector);
            assert(strings_view(props@) =~= strings_view(old(props)@) + Seq::empty());
        } else if m0.argument is Some && m0.argument->0 is Dynamic {
            assert(strings_view(props@) =~= strings_view(old(props)@) + Seq::empty());
        } else {
            assert(strings_view(props@) =~= strings_view(old(props)@.take(old(props)@.len() as int)) + seq![props@.last()@]);
        }
    }
}

/// `o1` is `o0` rewritten in `env`, or both are absent.
pub open spec fn opt_rewritten(env: RewriteEnv, o0: Option<ScriptExpr>, o1: Option<ScriptExpr>) -> bool {
    match o0 {
        Some(e0) => o1 matches Some(e1) && expr_view(e1) == rewritten(env, Seq::empty(), false, expr_view(e0)),
        None => o1 is None,
    }
}

/// The variables of the scope that the element opens: those of the `v-for`
/// aliases, then those of the `v-slot` value.
pub open spec fn opened_vars(el: ElementExprs) -> Seq<Seq<char>> {
    (match el.v_for {
        Some(f) => alias_idents(f.aliases),
        None => Seq::empty(),
    }) + (match el.v_slot {
        Some(s) => match s.value {
            Some(p) => pat_idents(p),
            None => Seq::empty(),
        },
        None => Seq::empty(),
    })
}

/// The bindings `h` with the template scopes `scopes`.
pub open spec fn with_scopes(h: BindingsHelper, scopes: Vec<Scope>) -> BindingsHelper {
    BindingsHelper {
        setup_bindings: h.setup_bindings,
        options_api_bindings: h.options_api_bindings,
        template_scopes: scopes,
        used_bindings: h.used_bindings,
        template_generation_mode: h.template_generation_mode,
        components: h.components,
        custom_directives: h.custom_directives,
    }
}

/// The bindings `h` look every name of the scope `s` up as `h0` does.
pub open spec fn tracks(h: BindingsHelper, h0: BindingsHelper, s: u32) -> bool {
    &&& h.template_scopes == h0.template_scopes
    &&& h.setup_bindings == h0.setup_bindings
    &&& h.options_api_bindings == h0.options_api_bindings
    &&& h.template_generation_mode == h0.template_generation_mode
    &&& h.components == h0.components
    &&& h.custom_directives == h0.custom_directives
    &&& exists|n: nat| chain_ends(h.template_scopes@, s as int, n)
    &&& forall|v: Seq<char>| #[trigger] spec_binding_type(h, s, v, scope_fuel(h0.template_scopes@, s)).0
        == spec_binding_type(h0, s, v, scope_fuel(h0.template_scopes@, s)).0
    &&& h.template_generation_mode == TemplateGenerationMode::Inline || no_aliased_props(h)
}

/// Rewrites `e` in the scope `s`, as the bindings `h0` would.
fn transform_in(ctx: &mut TransformSfcContext, e: &mut ScriptExpr, s: u32, Ghost(h0): Ghost<BindingsHelper>) -> (r: bool)
    requires
        tracks(old(ctx).bindings_helper, h0, s),
    ensures
        expr_view(*final(e)) == rewritten(template_env(h0, s), Seq::empty(), false, expr_view(*old(e))),
        r == uses_bindings(template_env(h0, s), Seq::empty(), false, expr_view(*old(e))),
        tracks(final(ctx).bindings_helper, h0, s),
        final(ctx).directive_scopes == old(ctx).directive_scopes,
{
    let ghost h1 = ctx.bindings_helper;
    let r = ctx.bindings_helper.transform_expr(e, s);
    proof {
        assert(same_lookups(template_env(h1, s), template_env(h0, s)));
        lemma_rewrite_same_lookups(template_env(h1, s), template_env(h0, s), Seq::empty(), false, expr_view(*old(e)));
    }
    r
}

/// Rewrites the expression of `o`, if there is one, in the scope `s`.
fn transform_opt(ctx: &mut TransformSfcContext, o: &mut Option<ScriptExpr>, s: u32, Ghost(h0): Ghost<BindingsHelper>)
    requires
        tracks(old(ctx).bindings_helper, h0, s),
    ensures
        opt_rewritten(template_env(h0, s), *old(o), *final(o)),
        tracks(final(ctx).bindings_helper, h0, s),
        final(ctx).directive_scopes == old(ctx).directive_scopes,
{
    if let Some(mut e) = o.take() {
        transform_in(ctx, &mut e, s, Ghost(h0));
        *o = Some(e);
    }
}

/// Opens the scope of an element under `parent_scope` when it has a `v-for` or a
/// `v-slot` (with the variables of their aliases and value), and rewrites in the
/// element's scope the `v-for` source (whose changing decides the fragment's
/// kind, with the element's key), the dynamic `v-slot` name, the values and
/// dynamic arguments of the `v-bind`s, the values of `v-html`, `v-memo`,
/// `v-show` and `v-text`, and the values and dynamic arguments of the custom
/// directives.
pub fn transform_element_exprs(ctx: &mut TransformSfcContext, parent_scope: u32, el: &mut ElementExprs) -> (r: ElementScopePlan)
    requires
        parents_before(old(ctx).bindings_helper.template_scopes@),
        parent_scope < old(ctx).bindings_helper.template_scopes@.len(),
        old(ctx).bindings_helper.template_scopes@.len() < u32::MAX,
        old(ctx).bindings_helper.template_generation_mode == TemplateGenerationMode::Inline
            || no_aliased_props(old(ctx).bindings_helper),
    ensures
        ({
            let scopes0 = old(ctx).bindings_helper.template_scopes@;
            let scopes = final(ctx).bindings_helper.template_scopes@;
            if old(el).v_for is Some || old(el).v_slot is Some {
                &&& r.template_scope == scopes0.len()
                &&& scopes.len() == scopes0.len() + 1
                &&& forall|j: int| 0 <= j < scopes0.len() ==> #[trigger] scopes[j] == scopes0[j]
                &&& scopes[r.template_scope as int].parent == parent_scope
                &&& strings_view(scopes[r.template_scope as int].variables@) == opened_vars(*old(el))
            } else {
                &&& r.template_scope == parent_scope
                &&& scopes == scopes0
            }
        }),
        parents_before(final(ctx).bindings_helper.template_scopes@),
        ({
            let env = template_env(with_scopes(old(ctx).bindings_helper, final(ctx).bindings_helper.template_scopes),
                r.template_scope);
            &&& match old(el).v_for {
                Some(f0) => final(el).v_for matches Some(f1) && f1.aliases == f0.aliases
                    && expr_view(f1.source) == rewritten(env, Seq::empty(), false, expr_view(f0.source))
                    && r.for_kind == Some(spec_fragment_kind(!uses_bindings(env, Seq::empty(), false, expr_view(f0.source)),
                        spec_find_for_key(old(el).key_attrs@, 0).0)),
                None => final(el).v_for is None && r.for_kind is None,
            }
            &&& match old(el).v_slot {
                Some(s0) => final(el).v_slot matches Some(s1) && s1.value == s0.value && match s0.name {
                    Some(n0) => s1.name matches Some(n1) && expr_view(n1) == rewritten(env, Seq::empty(), false, expr_view(n0)),
                    None => s1.name is None,
                },
                None => final(el).v_slot is None,
            }
            &&& final(el).binds@.len() == old(el).binds@.len()
            &&& r.bind_dynamic@.len() == old(el).binds@.len()
            &&& forall|i: int| 0 <= i < old(el).binds@.len() ==> {
                &&& expr_view(#[trigger] final(el).binds@[i].value) == rewritten(env, Seq::empty(), false, expr_view(old(el).binds@[i].value))
                &&& r.bind_dynamic@[i] == uses_bindings(env, Seq::empty(), false, expr_view(old(el).binds@[i].value))
                &&& match old(el).binds@[i].arg {
                    Some(a0) => final(el).binds@[i].arg matches Some(a1) && expr_view(a1) == rewritten(env, Seq::empty(), false, expr_view(a0)),
                    None => final(el).binds@[i].arg is None,
                }
            }
        }),
        ({
            let env = template_env(with_scopes(old(ctx).bindings_helper, final(ctx).bindings_helper.template_scopes),
                r.template_scope);
            &&& opt_rewritten(env, old(el).v_html, final(el).v_html)
            &&& opt_rewritten(env, old(el).v_memo, final(el).v_memo)
            &&& opt_rewritten(env, old(el).v_show, final(el).v_show)
            &&& opt_rewritten(env, old(el).v_text, final(el).v_text)
            &&& final(el).custom@.len() == old(el).custom@.len()
            &&& forall|i: int| 0 <= i < old(el).custom@.len() ==> {
                &&& (#[trigger] final(el).custom@[i]).name == old(el).custom@[i].name
                &&& opt_rewritten(env, old(el).custom@[i].value, final(el).custom@[i].value)
                &&& opt_rewritten(env, old(el).custom@[i].arg, final(el).custom@[i].arg)
            }
            &&& r.has_runtime_directives == (old(el).custom@.len() > 0)
            &&& final(el).v_models@.len() == old(el).v_models@.len()
            &&& forall|i: int| 0 <= i < old(el).v_models@.len() ==> model_transformed(
                with_scopes(old(ctx).bindings_helper, final(ctx).bindings_helper.template_scopes), r.template_scope,
                old(el).v_models@[i], #[trigger] final(el).v_models@[i])
            &&& r.model_flags == models_flags(old(el).v_models@, old(el).v_models@.len() as int)
            &&& strings_view(r.model_props@) == models_props(old(el).v_models@, old(el).v_models@.len() as int)
        }),
        final(el).key_attrs == old(el).key_attrs,
        final(ctx).directive_scopes == old(ctx).directive_scopes,
        final(ctx).bindings_helper.setup_bindings == old(ctx).bindings_helper.setup_bindings,
        final(ctx).bindings_helper.options_api_bindings == old(ctx).bindings_helper.options_api_bindings,
        final(ctx).bindings_helper.template_generation_mode == old(ctx).bindings_helper.template_generation_mode,
        final(ctx).bindings_helper.components == old(ctx).bindings_helper.components,
        final(ctx).bindings_helper.custom_directives == old(ctx).bindings_helper.custom_directives,
{
    let ghost h_old = ctx.bindings_helper;
    let ghost el0 = *el;
    let mut v_for = el.v_for.take();
    let mut v_slot = el.v_slot.take();

    // Open a new scope for `v-for` and `v-slot`
    let opens = v_for.is_some() || v_slot.is_some();
    let mut scope_to_use = parent_scope;
    if opens {
        scope_to_use = ctx.bindings_helper.template_scopes.len() as u32;
        let mut scope = Scope { variables: Vec::new(), parent: parent_scope };
        assert(strings_view(scope.variables@) =~= Seq::empty());
        if let Some(f) = &v_for {
            collect_variables(&f.aliases.value, &mut scope);
            if let Some(key_alias) = &f.aliases.key {
                collect_variables(key_alias, &mut scope);
            }
            if let Some(index_alias) = &f.aliases.index {
                collect_variables(index_alias, &mut scope);
            }
        }
        if let Some(sl) = &v_slot {
            if let Some(p) = &sl.value {
                collect_variables(p, &mut scope);
            }
        }
        assert(strings_view(scope.variables@) =~= opened_vars(el0));
        ctx.bindings_helper.template_scopes.push(scope);
    }
    let ghost scopes0 = h_old.template_scopes@;
    proof {
        let scopes = ctx.bindings_helper.template_scopes@;
        assert forall|j: int| 0 <= j < scopes.len() implies (#[trigger] scopes[j]).parent <= j by {
            if j < scopes0.len() {
                assert(scopes[j] == scopes0[j]);
            }
        }
        lemma_parents_before_chain_ends(scopes, scope_to_use as int);
    }
    let ghost h_mid = with_scopes(h_old, ctx.bindings_helper.template_scopes);
    assert(ctx.bindings_helper == h_mid);
    assert(tracks(ctx.bindings_helper, h_mid, scope_to_use));

    // The `v-for` source: whether it changes decides the fragment's kind
    let mut for_kind: Option<FragmentKind> = None;
    if let Some(mut f) = v_for {
        let is_dynamic = transform_in(ctx, &mut f.source, scope_to_use, Ghost(h_mid));
        let (has_key, _) = find_for_key(&el.key_attrs);
        for_kind = Some(fragment_kind(!is_dynamic, has_key));
        el.v_for = Some(f);
    }

    // The dynamic `v-slot` name
    if let Some(mut sl) = v_slot {
        if let Some(mut name) = sl.name.take() {
            transform_in(ctx, &mut name, scope_to_use, Ghost(h_mid));
            sl.name = Some(name);
        }
        el.v_slot = Some(sl);
    }

    // The values and dynamic arguments of the bindings
    let mut binds: Vec<BindInput> = Vec::new();
    std::mem::swap(&mut binds, &mut el.binds);
    let ghost binds0 = binds@;
    assert(binds0 == el0.binds@);
    let mut out: Vec<BindInput> = Vec::new();
    let mut bind_dynamic: Vec<bool> = Vec::new();
    let mut i: usize = 0;
    while i < binds.len()
        invariant
            i <= binds.len(),
            binds@ == binds0,
            out@.len() == i,
            bind_dynamic@.len() == i,
            tracks(ctx.bindings_helper, h_mid, scope_to_use),
            ctx.directive_scopes == old(ctx).directive_scopes,
            forall|j: int| 0 <= j < i ==> {
                &&& expr_view(#[trigger] out@[j].value) == rewritten(template_env(h_mid, scope_to_use), Seq::empty(), false,
                    expr_view(binds0[j].value))
                &&& bind_dynamic@[j] == uses_bindings(template_env(h_mid, scope_to_use), Seq::empty(), false, expr_view(binds0[j].value))
                &&& match binds0[j].arg {
                    Some(a0) => out@[j].arg matches Some(a1) && expr_view(a1) == rewritten(template_env(h_mid, scope_to_use),
                        Seq::empty(), false, expr_view(a0)),
                    None => out@[j].arg is None,
                }
            },
        decreases binds.len() - i,
    {
        let mut value = crate::transform::script_expr::copy_expr(&binds[i].value);
        let has_bindings = transform_in(ctx, &mut value, scope_to_use, Ghost(h_mid));
        let arg = match &binds[i].arg {
            Some(a) => {
                let mut a2 = crate::transform::script_expr::copy_expr(a);
                transform_in(ctx, &mut a2, scope_to_use, Ghost(h_mid));
                Some(a2)
            },
            None => None,
        };
        out.push(BindInput { arg, value });
        bind_dynamic.push(has_bindings);
        i = i + 1;
    }
    el.binds = out;

    // The directives
    transform_opt(ctx, &mut el.v_html, scope_to_use, Ghost(h_mid));
    transform_opt(ctx, &mut el.v_memo, scope_to_use, Ghost(h_mid));
    transform_opt(ctx, &mut el.v_show, scope_to_use, Ghost(h_mid));
    transform_opt(ctx, &mut el.v_text, scope_to_use, Ghost(h_mid));
    let has_runtime_directives = el.custom.len() > 0;
    let mut custom: Vec<CustomDirectiveInput> = Vec::new();
    std::mem::swap(&mut custom, &mut el.custom);
    let ghost custom0 = custom@;
    let mut out_custom: Vec<CustomDirectiveInput> = Vec::new();
    let mut k: usize = 0;
    while k < custom.len()
        invariant
            k <= custom.len(),
            custom@ == custom0,
            out_custom@.len() == k,
            tracks(ctx.bindings_helper, h_mid, scope_to_use),
            ctx.directive_scopes == old(ctx).directive_scopes,
            forall|j: int| 0 <= j < k ==> {
                &&& (#[trigger] out_custom@[j]).name == custom0[j].name
                &&& opt_rewritten(template_env(h_mid, scope_to_use), custom0[j].value, out_custom@[j].value)
                &&& opt_rewritten(template_env(h_mid, scope_to_use), custom0[j].arg, out_custom@[j].arg)
            },
        decreases custom.len() - k,
    {
        let mut value = match &custom[k].value {
            Some(v) => Some(crate::transform::script_expr::copy_expr(v)),
            None => None,
        };
        let mut arg = match &custom[k].arg {
            Some(a) => Some(crate::transform::script_expr::copy_expr(a)),
            None => None,
        };
        transform_opt(ctx, &mut value, scope_to_use, Ghost(h_mid));
        transform_opt(ctx, &mut arg, scope_to_use, Ghost(h_mid));
        out_custom.push(CustomDirectiveInput { name: custom[k].name.clone(), value, arg });
        k = k + 1;
    }
    el.custom = out_custom;

    // The `v-model`s
    let mut models: Vec<VModelDirective> = Vec::new();
    std::mem::swap(&mut models, &mut el.v_models);
    let ghost models0 = models@;
    let mut out_models: Vec<VModelDirective> = Vec::new();
    let mut model_flags: u32 = 0;
    let mut model_props: Vec<String> = Vec::new();
    assert(strings_view(model_props@) =~= models_props(models0, 0));
    let mut k: usize = 0;
    while k < models.len()
        invariant
            k <= models.len(),
            models@ == models0,
            out_models@.len() == k,
            tracks(ctx.bindings_helper, h_mid, scope_to_use),
            ctx.directive_scopes == old(ctx).directive_scopes,
            forall|j: int| 0 <= j < k ==> model_transformed(h_mid, scope_to_use, models0[j], #[trigger] out_models@[j]),
            model_flags == models_flags(models0, k as int),
            strings_view(model_props@) == models_props(models0, k as int),
        decreases models.len() - k,
    {
        let mut m = copy_v_model(&models[k]);
        assert(model_hint(m) == model_hint(models0[k as int]));
        transform_model_in(ctx, &mut m, scope_to_use, &mut model_flags, &mut model_props, Ghost(h_mid));
        assert(model_transformed(h_mid, scope_to_use, models0[k as int], m));
        out_models.push(m);
        k = k + 1;
    }
    el.v_models = out_models;
    ElementScopePlan { template_scope: scope_to_use, for_kind, bind_dynamic, has_runtime_directives, model_flags, model_props }
}

} // verus!
