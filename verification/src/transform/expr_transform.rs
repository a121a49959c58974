//! How the identifiers of template expressions are resolved and written.
use vstd::prelude::*;

use crate::analyzer::scope::{chain_ends, contains_str, lemma_lookup_fuel, spec_contains, template_lookup, Scope};
use crate::text::{str_eq, to_owned_string};
use crate::transform::build_props::{PATCH_FULL_PROPS, PATCH_PROPS};
use crate::transform::resolutions::{lemma_no_aliased_lookup, no_aliased_props};
use crate::transform::script_expr::{copy_expr, copy_names, expr_view, exprs_view, names_view, prop_view, props_view, ExprV, ObjectProp, PropV, ScriptExpr};
use crate::transform::context::{BindingTypes, BindingsHelper, OptionsApiBindings, SetupBinding, TemplateGenerationMode};

verus! {

/// The globals of JavaScript that template expressions use as they are.
pub open spec fn js_builtins() -> Seq<Seq<char>> {
    seq![
        "console"@, "undefined"@, "globalThis"@, "Infinity"@, "NaN"@, "eval"@,
        "isFinite"@, "isNaN"@, "parseFloat"@, "parseInt"@, "decodeURI"@, "decodeURIComponent"@,
        "encodeURI"@, "encodeURIComponent"@, "escape"@, "unescape"@, "Object"@, "Function"@,
        "Boolean"@, "Symbol"@, "Error"@, "AggregateError"@, "EvalError"@, "RangeError"@,
        "ReferenceError"@, "SyntaxError"@, "TypeError"@, "URIError"@, "Number"@, "BigInt"@,
        "Math"@, "Date"@, "String"@, "RegExp"@, "Array"@, "Int8Array"@,
        "Uint8Array"@, "Uint8ClampedArray"@, "Int16Array"@, "Uint16Array"@, "Int32Array"@, "Uint32Array"@,
        "BigInt64Array"@, "BigUint64Array"@, "Float32Array"@, "Float64Array"@, "Map"@, "Set"@,
        "WeakMap"@, "WeakSet"@, "ArrayBuffer"@, "SharedArrayBuffer"@, "DataView"@, "Atomics"@,
        "JSON"@, "WeakRef"@, "FinalizationRegistry"@, "Iterator"@, "AsyncIterator"@, "Promise"@,
        "GeneratorFunction"@, "AsyncGeneratorFunction"@, "Generator"@, "AsyncGenerator"@, "AsyncFunction"@, "Reflect"@,
        "Proxy"@, "Intl"@,
    ]
}

fn js_builtin_at(i: usize) -> (r: &'static str)
    requires
        i < js_builtins().len(),
    ensures
        r@ == js_builtins()[i as int],
{
    match i {
        0 => "console",
        1 => "undefined",
        2 => "globalThis",
        3 => "Infinity",
        4 => "NaN",
        5 => "eval",
        6 => "isFinite",
        7 => "isNaN",
        8 => "parseFloat",
        9 => "parseInt",
        10 => "decodeURI",
        11 => "decodeURIComponent",
        12 => "encodeURI",
        13 => "encodeURIComponent",
        14 => "escape",
        15 => "unescape",
        16 => "Object",
        17 => "Function",
        18 => "Boolean",
        19 => "Symbol",
        20 => "Error",
        21 => "AggregateError",
        22 => "EvalError",
        23 => "RangeError",
        24 => "ReferenceError",
        25 => "SyntaxError",
        26 => "TypeError",
        27 => "URIError",
        28 => "Number",
        29 => "BigInt",
        30 => "Math",
        31 => "Date",
        32 => "String",
        33 => "RegExp",
        34 => "Array",
        35 => "Int8Array",
        36 => "Uint8Array",
        37 => "Uint8ClampedArray",
        38 => "Int16Array",
        39 => "Uint16Array",
        40 => "Int32Array",
        41 => "Uint32Array",
        42 => "BigInt64Array",
        43 => "BigUint64Array",
        44 => "Float32Array",
        45 => "Float64Array",
        46 => "Map",
        47 => "Set",
        48 => "WeakMap",
        49 => "WeakSet",
        50 => "ArrayBuffer",
        51 => "SharedArrayBuffer",
        52 => "DataView",
        53 => "Atomics",
        54 => "JSON",
        55 => "WeakRef",
        56 => "FinalizationRegistry",
        57 => "Iterator",
        58 => "AsyncIterator",
        59 => "Promise",
        60 => "GeneratorFunction",
        61 => "AsyncGeneratorFunction",
        62 => "Generator",
        63 => "AsyncGenerator",
        64 => "AsyncFunction",
        65 => "Reflect",
        66 => "Proxy",
        _ => "Intl",
    }
}

/// Whether `name` is a global of JavaScript.
pub fn is_js_global(name: &str) -> (r: bool)
    ensures
        r == js_builtins().contains(name@),
{
    let n: usize = 68;
    assert(js_builtins().len() == 68);
    let mut i: usize = 0;
    while i < n
        invariant
            n == js_builtins().len(),
            i <= n,
            forall|k: int| 0 <= k < i ==> js_builtins()[k] != name@,
        decreases n - i,
    {
        if str_eq(name, js_builtin_at(i)) {
            assert(js_builtins()[i as int] == name@);
            return true;
        }
        i = i + 1;
    }
    false
}

/// The prefix of a variable of `binding_type` (without its dot): in inline mode only
/// the Options API and unresolved variables (`_ctx`) and props (`__props`) take one.
pub open spec fn spec_get_prefix(binding_type: BindingTypes, is_inline: bool) -> Option<Seq<char>> {
    if is_inline {
        match binding_type {
            BindingTypes::Data | BindingTypes::Options | BindingTypes::Unresolved => Some("_ctx"@),
            BindingTypes::Props => Some("__props"@),
            _ => None,
        }
    } else {
        match binding_type {
            BindingTypes::Data => Some("$data"@),
            BindingTypes::Props => Some("$props"@),
            BindingTypes::Options => Some("$options"@),
            BindingTypes::SetupConst | BindingTypes::SetupLet | BindingTypes::SetupMaybeRef
            | BindingTypes::SetupReactiveConst | BindingTypes::SetupRef => Some("$setup"@),
            BindingTypes::Unresolved => Some("_ctx"@),
            _ => None,
        }
    }
}

/// Gets the variable prefix depending on if we are compiling the template in inline mode.
/// This is used for transformations.
/// ## Example
/// `data()` variable `foo` in non-inline compilation becomes `$data.foo`.\
/// `setup()` ref variable `bar` in non-inline compilation becomes `$setup.bar`,
/// but in the inline compilation it remains the same.
/// Aliased props have no prefix outside inline mode.
pub fn get_prefix(binding_type: &BindingTypes, is_inline: bool) -> (r: Option<&'static str>)
    requires
        is_inline || *binding_type != BindingTypes::PropsAliased,
    ensures
        match r {
            Some(p) => spec_get_prefix(*binding_type, is_inline) == Some(p@),
            None => spec_get_prefix(*binding_type, is_inline) is None,
        },
{
    // For inline mode, options API variables become prefixed
    if is_inline {
        return match binding_type {
            BindingTypes::Data | BindingTypes::Options | BindingTypes::Unresolved => Some("_ctx"),
            BindingTypes::Props => Some("__props"),
            _ => None,
        };
    }
    match binding_type {
        BindingTypes::Data => Some("$data"),
        BindingTypes::Props => Some("$props"),
        BindingTypes::Options => Some("$options"),
        BindingTypes::TemplateLocal | BindingTypes::JsGlobal | BindingTypes::LiteralConst
        | BindingTypes::Component | BindingTypes::Imported => None,
        BindingTypes::SetupConst | BindingTypes::SetupLet | BindingTypes::SetupMaybeRef
        | BindingTypes::SetupReactiveConst | BindingTypes::SetupRef => Some("$setup"),
        BindingTypes::Unresolved => Some("_ctx"),
        BindingTypes::PropsAliased => None,
    }
}

/// The names and types of a list of bindings.
pub open spec fn bindings_view(v: Seq<SetupBinding>) -> Seq<(Seq<char>, BindingTypes)> {
    v.map_values(|b: SetupBinding| (b.sym@, b.binding_type))
}

pub open spec fn cache_view(v: Seq<(String, BindingTypes)>) -> Seq<(Seq<char>, BindingTypes)> {
    v.map_values(|p: (String, BindingTypes)| (p.0@, p.1))
}

/// The type of the first binding named `name`.
pub open spec fn find_type(v: Seq<(Seq<char>, BindingTypes)>, name: Seq<char>) -> Option<BindingTypes>
    decreases v.len(),
{
    if v.len() == 0 {
        None
    } else if v[0].0 == name {
        Some(v[0].1)
    } else {
        find_type(v.skip(1), name)
    }
}

/// The bindings of `setup()`, when there are Options API bindings.
pub open spec fn options_setup(o: Option<OptionsApiBindings>) -> Seq<SetupBinding> {
    match o {
        Some(b) => b.setup@,
        None => Seq::empty(),
    }
}

/// Where `variable` comes from, looked up from the template scope `start`
/// (whose parent chain ends within `n` steps), and whether the answer is one that
/// gets remembered: a global of JavaScript, a template variable, a binding found
/// before, a setup binding (of `<script setup>`, then of `setup()`), then the
/// Options API's data, props, computed, methods, injections and imports.
pub open spec fn spec_binding_type(h: BindingsHelper, start: u32, variable: Seq<char>, n: nat) -> (BindingTypes, bool) {
    if js_builtins().contains(variable) {
        (BindingTypes::JsGlobal, false)
    } else if template_lookup(h.template_scopes@, start as int, variable, n) is Some {
        (BindingTypes::TemplateLocal, false)
    } else if let Some(t) = find_type(cache_view(h.used_bindings@), variable) {
        (t, false)
    } else if let Some(t) = find_type(bindings_view(h.setup_bindings@ + options_setup(h.options_api_bindings)), variable) {
        (t, true)
    } else {
        match h.options_api_bindings {
            Some(o) => if spec_contains(o.data@, variable) {
                (BindingTypes::Data, true)
            } else if spec_contains(o.props@, variable) {
                (BindingTypes::Props, true)
            } else if spec_contains(o.computed@, variable) || spec_contains(o.methods@, variable)
                || spec_contains(o.inject@, variable) {
                (BindingTypes::Options, true)
            } else if find_type(bindings_view(o.imports@), variable) is Some {
                (BindingTypes::SetupMaybeRef, true)
            } else {
                (BindingTypes::Unresolved, false)
            },
            None => (BindingTypes::Unresolved, false),
        }
    }
}

/// The type of the first binding of `bindings` named `name`, from `k` on.
fn find_binding_type(bindings: &Vec<SetupBinding>, name: &str) -> (r: Option<BindingTypes>)
    ensures
        r == find_type(bindings_view(bindings@), name@),
{
    let ghost all = bindings_view(bindings@);
    let mut k: usize = 0;
    assert(all.skip(0) =~= all);
    while k < bindings.len()
        invariant
            k <= bindings.len(),
            all == bindings_view(bindings@),
            find_type(all, name@) == find_type(all.skip(k as int), name@),
        decreases bindings.len() - k,
    {
        assert(all.skip(k as int)[0] == (bindings@[k as int].sym@, bindings@[k as int].binding_type));
        assert(all.skip(k as int).skip(1) =~= all.skip(k + 1));
        if str_eq(bindings[k].sym.as_str(), name) {
            return Some(bindings[k].binding_type);
        }
        k = k + 1;
    }
    assert(all.skip(k as int).len() == 0);
    None
}

/// The remembered type of `name`.
fn find_cached_type(cache: &Vec<(String, BindingTypes)>, name: &str) -> (r: Option<BindingTypes>)
    ensures
        r == find_type(cache_view(cache@), name@),
{
    let ghost all = cache_view(cache@);
    let mut k: usize = 0;
    assert(all.skip(0) =~= all);
    while k < cache.len()
        invariant
            k <= cache.len(),
            all == cache_view(cache@),
            find_type(all, name@) == find_type(all.skip(k as int), name@),
        decreases cache.len() - k,
    {
        assert(all.skip(k as int)[0] == (cache@[k as int].0@, cache@[k as int].1));
        assert(all.skip(k as int).skip(1) =~= all.skip(k + 1));
        if str_eq(cache[k].0.as_str(), name) {
            return Some(cache[k].1);
        }
        k = k + 1;
    }
    assert(all.skip(k as int).len() == 0);
    None
}

pub proof fn lemma_find_type_append(a: Seq<(Seq<char>, BindingTypes)>, b: Seq<(Seq<char>, BindingTypes)>, name: Seq<char>)
    ensures
        find_type(a + b, name) == match find_type(a, name) {
            Some(t) => Some(t),
            None => find_type(b, name),
        },
    decreases a.len(),
{
    if a.len() > 0 {
        assert((a + b).skip(1) =~= a.skip(1) + b);
        lemma_find_type_append(a.skip(1), b, name);
    } else {
        assert(a + b =~= b);
    }
}

/// Whether `name` is a variable of the template scopes on the chain from `start`.
fn in_template_scopes(scopes: &Vec<Scope>, start: u32, name: &str) -> (r: bool)
    requires
        exists|n: nat| chain_ends(scopes@, start as int, n),
    ensures
        forall|n: nat| chain_ends(scopes@, start as int, n) ==> r == (template_lookup(scopes@, start as int, name@, n) is Some),
{
    let ghost fuel0: nat = choose|n: nat| chain_ends(scopes@, start as int, n);
    proof {
        assert forall|n: nat| chain_ends(scopes@, start as int, n) implies
            template_lookup(scopes@, start as int, name@, n) == template_lookup(scopes@, start as int, name@, fuel0) by {
            if n <= fuel0 {
                lemma_lookup_fuel(scopes@, start as int, name@, n, fuel0);
            } else {
                lemma_lookup_fuel(scopes@, start as int, name@, fuel0, n);
            }
        }
    }
    let mut current_scope_index = start;
    let ghost mut fuel = fuel0;
    while (current_scope_index as usize) < scopes.len()
        invariant
            forall|n: nat| chain_ends(scopes@, start as int, n) ==>
                template_lookup(scopes@, start as int, name@, n) == template_lookup(scopes@, start as int, name@, fuel0),
            chain_ends(scopes@, current_scope_index as int, fuel),
            template_lookup(scopes@, start as int, name@, fuel0) == template_lookup(scopes@, current_scope_index as int, name@, fuel),
        ensures
            template_lookup(scopes@, start as int, name@, fuel0) is None,
        decreases fuel,
    {
        let current_scope = &scopes[current_scope_index as usize];
        // Check variable existence in the current scope
        if contains_str(&current_scope.variables, name) {
            return true;
        }
        // Check if we reached the root scope, it will have itself as a parent
        if current_scope.parent == current_scope_index {
            break;
        }
        // Go to parent
        current_scope_index = current_scope.parent;
        proof {
            fuel = (fuel - 1) as nat;
        }
    }
    false
}

impl BindingsHelper {
    /// Finds where `variable` comes from, starting at the template scope
    /// `starting_scope`, and remembers a binding of the script found for it.
    pub fn get_var_binding_type(&mut self, starting_scope: u32, variable: &str) -> (r: BindingTypes)
        requires
            exists|n: nat| chain_ends(old(self).template_scopes@, starting_scope as int, n),
        ensures
            forall|n: nat| chain_ends(old(self).template_scopes@, starting_scope as int, n) ==> {
                let (t, remembered) = spec_binding_type(*old(self), starting_scope, variable@, n);
                &&& r == t
                &&& cache_view(final(self).used_bindings@) == if remembered {
                    cache_view(old(self).used_bindings@).push((variable@, t))
                } else {
                    cache_view(old(self).used_bindings@)
                }
            },
            final(self).setup_bindings == old(self).setup_bindings,
            final(self).options_api_bindings == old(self).options_api_bindings,
            final(self).template_scopes == old(self).template_scopes,
            final(self).template_generation_mode == old(self).template_generation_mode,
            final(self).components == old(self).components,
            final(self).custom_directives == old(self).custom_directives,
    {
        if is_js_global(variable) {
            return BindingTypes::JsGlobal;
        }

        // Check template scope
        if in_template_scopes(&self.template_scopes, starting_scope, variable) {
            return BindingTypes::TemplateLocal;
        }

        // Check the bindings found before
        if let Some(binding_type) = find_cached_type(&self.used_bindings, variable) {
            return binding_type;
        }

        // Check setup bindings (both `<script setup>` and `setup()`)
        let ghost setup_all = bindings_view(self.setup_bindings@ + options_setup(self.options_api_bindings));
        proof {
            assert(bindings_view(self.setup_bindings@ + options_setup(self.options_api_bindings))
                =~= bindings_view(self.setup_bindings@) + bindings_view(options_setup(self.options_api_bindings)));
            lemma_find_type_append(bindings_view(self.setup_bindings@), bindings_view(options_setup(self.options_api_bindings)), variable@);
        }
        let found = match find_binding_type(&self.setup_bindings, variable) {
            Some(t) => Some(t),
            None => match &self.options_api_bindings {
                Some(o) => find_binding_type(&o.setup, variable),
                None => None,
            },
        };
        if let Some(binding_type) = found {
            self.used_bindings.push((to_owned_string(variable), binding_type));
            assert(cache_view(self.used_bindings@) =~= cache_view(old(self).used_bindings@).push((variable@, binding_type)));
            return binding_type;
        }

        // Check all the options API variables
        let options_type = match &self.options_api_bindings {
            Some(o) => {
                if contains_str(&o.data, variable) {
                    Some(BindingTypes::Data)
                } else if contains_str(&o.props, variable) {
                    Some(BindingTypes::Props)
                } else if contains_str(&o.computed, variable) || contains_str(&o.methods, variable)
                    || contains_str(&o.inject, variable) {
                    Some(BindingTypes::Options)
                } else if find_binding_type(&o.imports, variable).is_some() {
                    // Options API imports may be refs
                    Some(BindingTypes::SetupMaybeRef)
                } else {
                    None
                }
            },
            None => None,
        };
        match options_type {
            Some(binding_type) => {
                self.used_bindings.push((to_owned_string(variable), binding_type));
                assert(cache_view(self.used_bindings@) =~= cache_view(old(self).used_bindings@).push((variable@, binding_type)));
                binding_type
            },
            None => BindingTypes::Unresolved,
        }
    }
}

/// How an identifier of a template expression is written.
#[derive(Debug)]
pub enum IdentTransformStrategy {
    /// Leave the identifier as-is, e.g. for global symbols or template-local variables coming from `v-for`
    LeaveUnchanged,
    /// Append the `.value`
    DotValue,
    /// Wrap in `unref()`
    Unref,
    /// Add the prefix, e.g. `$setup` or `_ctx`
    Prefix(&'static str),
    /// Generate `isRef(e) ? e.value++ : e++`
    IsRefCheckUpdate,
}

/// The mathematical value of an [`IdentTransformStrategy`].
pub enum StrategyView {
    LeaveUnchanged,
    DotValue,
    Unref,
    Prefix(Seq<char>),
    IsRefCheckUpdate,
}

pub open spec fn strategy_view(s: IdentTransformStrategy) -> StrategyView {
    match s {
        IdentTransformStrategy::LeaveUnchanged => StrategyView::LeaveUnchanged,
        IdentTransformStrategy::DotValue => StrategyView::DotValue,
        IdentTransformStrategy::Unref => StrategyView::Unref,
        IdentTransformStrategy::Prefix(p) => StrategyView::Prefix(p@),
        IdentTransformStrategy::IsRefCheckUpdate => StrategyView::IsRefCheckUpdate,
    }
}

/// What the expression transform knows where it meets an identifier.
pub struct IdentTransformState {
    /// The variables of the enclosing functions (e.g. arrow function params)
    pub local_vars: Vec<String>,
    /// The template scope of the expression
    pub current_scope: u32,
    /// Whether the template is compiled inline into `setup()`
    pub is_inline: bool,
    pub is_in_destructure_assign: bool,
    pub is_in_assign_target: bool,
    /// `v-model` checks `isRef(maybe) ? maybe.value = 1 : null`
    pub is_v_model_transform: bool,
    /// Whether an update (`x++`) or an assignment `x = y` is being transformed
    pub has_update_expr: bool,
    /// Whether the expression uses bindings that change
    pub has_js_bindings: bool,
}

pub open spec fn is_dynamic_setup(t: BindingTypes) -> bool {
    t == BindingTypes::SetupLet || t == BindingTypes::SetupReactiveConst || t == BindingTypes::SetupMaybeRef
        || t == BindingTypes::SetupRef
}

/// In inline mode, how a binding of type `t` is written: a ref gets `.value`, a
/// value that may be a ref is unwrapped, and in an assignment or update a
/// possible ref gets `.value` or an `isRef` check.
pub open spec fn inline_strategy(t: BindingTypes, in_destructure: bool, in_target: bool, v_model: bool,
    has_update: bool) -> StrategyView {
    if t == BindingTypes::SetupMaybeRef && (in_destructure || (in_target && !v_model) || has_update) {
        StrategyView::DotValue
    } else if t == BindingTypes::SetupLet && has_update {
        StrategyView::IsRefCheckUpdate
    } else if t == BindingTypes::SetupMaybeRef || t == BindingTypes::SetupLet || t == BindingTypes::Imported {
        StrategyView::Unref
    } else if t == BindingTypes::SetupRef {
        StrategyView::DotValue
    } else {
        StrategyView::LeaveUnchanged
    }
}

/// How `symbol` is written, and whether it makes the expression use bindings
/// that change: local variables and template variables stay as they are, a
/// prefix is added where the binding type has one, and otherwise only inline
/// mode changes the identifier.
pub open spec fn ident_strategy(h: BindingsHelper, scope: u32, is_inline: bool, is_local: bool, in_destructure: bool,
    in_target: bool, v_model: bool, has_update: bool, symbol: Seq<char>, n: nat) -> (StrategyView, bool) {
    if is_local {
        (StrategyView::LeaveUnchanged, true)
    } else {
        let t = spec_binding_type(h, scope, symbol, n).0;
        if t == BindingTypes::TemplateLocal {
            (StrategyView::LeaveUnchanged, true)
        } else if let Some(p) = spec_get_prefix(t, is_inline) {
            (StrategyView::Prefix(p), true)
        } else if !is_inline {
            (StrategyView::LeaveUnchanged, false)
        } else {
            (inline_strategy(t, in_destructure, in_target, v_model, has_update), is_dynamic_setup(t))
        }
    }
}

/// The strategy of `symbol` in the state `st`, and the state's flag of bindings
/// that change afterwards.
pub open spec fn spec_strategy(st: IdentTransformState, h: BindingsHelper, symbol: Seq<char>, n: nat) -> (StrategyView, bool) {
    let r = ident_strategy(h, st.current_scope, st.is_inline, spec_contains(st.local_vars@, symbol),
        st.is_in_destructure_assign, st.is_in_assign_target, st.is_v_model_transform, st.has_update_expr, symbol, n);
    (r.0, st.has_js_bindings || r.1)
}

impl IdentTransformState {
    /// Determines the strategy with which an identifier needs to be transformed.
    /// The binding lookup remembers what it finds in `bindings_helper`.
    pub fn determine_ident_transform_strategy(&mut self, bindings_helper: &mut BindingsHelper, symbol: &str) -> (r: IdentTransformStrategy)
        requires
            exists|n: nat| chain_ends(old(bindings_helper).template_scopes@, old(self).current_scope as int, n),
            old(self).is_inline || forall|n: nat| chain_ends(old(bindings_helper).template_scopes@, old(self).current_scope as int, n)
                ==> spec_binding_type(*old(bindings_helper), old(self).current_scope, symbol@, n).0 != BindingTypes::PropsAliased,
        ensures
            forall|n: nat| chain_ends(old(bindings_helper).template_scopes@, old(self).current_scope as int, n) ==>
                (strategy_view(r), final(self).has_js_bindings) == spec_strategy(*old(self), *old(bindings_helper), symbol@, n),
            final(self).local_vars == old(self).local_vars,
            final(self).current_scope == old(self).current_scope,
            final(self).is_inline == old(self).is_inline,
            final(self).is_in_destructure_assign == old(self).is_in_destructure_assign,
            final(self).is_in_assign_target == old(self).is_in_assign_target,
            final(self).is_v_model_transform == old(self).is_v_model_transform,
            final(self).has_update_expr == old(self).has_update_expr,
            forall|n: nat| chain_ends(old(bindings_helper).template_scopes@, old(self).current_scope as int, n) ==> {
                let (t, remembered) = spec_binding_type(*old(bindings_helper), old(self).current_scope, symbol@, n);
                cache_view(final(bindings_helper).used_bindings@) == if remembered && !spec_contains(old(self).local_vars@, symbol@) {
                    cache_view(old(bindings_helper).used_bindings@).push((symbol@, t))
                } else {
                    cache_view(old(bindings_helper).used_bindings@)
                }
            },
            final(bindings_helper).setup_bindings == old(bindings_helper).setup_bindings,
            final(bindings_helper).options_api_bindings == old(bindings_helper).options_api_bindings,
            final(bindings_helper).template_scopes == old(bindings_helper).template_scopes,
            final(bindings_helper).template_generation_mode == old(bindings_helper).template_generation_mode,
            final(bindings_helper).components == old(bindings_helper).components,
            final(bindings_helper).custom_directives == old(bindings_helper).custom_directives,
    {
        // Try to find variable in the local vars (e.g. arrow function params)
        if contains_str(&self.local_vars, symbol) {
            self.has_js_bindings = true;
            return IdentTransformStrategy::LeaveUnchanged;
        }

        let binding_type = bindings_helper.get_var_binding_type(self.current_scope, symbol);

        // Template local binding doesn't need any processing
        if binding_type == BindingTypes::TemplateLocal {
            self.has_js_bindings = true;
            return IdentTransformStrategy::LeaveUnchanged;
        }

        // Get the prefix which fits the scope (e.g. `_ctx.` for unknown scopes, `$setup.` for setup scope)
        if let Some(prefix) = get_prefix(&binding_type, self.is_inline) {
            self.has_js_bindings = true;
            return IdentTransformStrategy::Prefix(prefix);
        }

        // Non-inline logic ends here
        if !self.is_inline {
            return IdentTransformStrategy::LeaveUnchanged;
        }

        // Add a flag that binding is dynamic
        if binding_type == BindingTypes::SetupLet || binding_type == BindingTypes::SetupReactiveConst
            || binding_type == BindingTypes::SetupMaybeRef || binding_type == BindingTypes::SetupRef {
            self.has_js_bindings = true;
        }

        if binding_type == BindingTypes::SetupMaybeRef && (self.is_in_destructure_assign || (self.is_in_assign_target
            && !self.is_v_model_transform) || self.has_update_expr) {
            // Update expression with MaybeRef: `maybe++` -> `maybe.value++`
            IdentTransformStrategy::DotValue
        } else if binding_type == BindingTypes::SetupLet && self.has_update_expr {
            // Update expression with SetupLet: `lett++` -> `isRef(lett) ? lett.value++ : lett++`
            IdentTransformStrategy::IsRefCheckUpdate
        } else if binding_type == BindingTypes::SetupMaybeRef || binding_type == BindingTypes::SetupLet
            || binding_type == BindingTypes::Imported {
            IdentTransformStrategy::Unref
        } else if binding_type == BindingTypes::SetupRef {
            IdentTransformStrategy::DotValue
        } else {
            IdentTransformStrategy::LeaveUnchanged
        }
    }
}

/// How a lone identifier `sym` is written, looked up from the template scope `scope`:
/// what the expression transform does with an identifier met outside any
/// function, assignment or update.
pub open spec fn plain_ident_strategy(h: BindingsHelper, scope: u32, is_inline: bool, sym: Seq<char>, n: nat) -> StrategyView {
    let t = spec_binding_type(h, scope, sym, n).0;
    if t == BindingTypes::TemplateLocal {
        StrategyView::LeaveUnchanged
    } else if let Some(p) = spec_get_prefix(t, is_inline) {
        StrategyView::Prefix(p)
    } else if !is_inline {
        StrategyView::LeaveUnchanged
    } else if t == BindingTypes::SetupMaybeRef || t == BindingTypes::SetupLet || t == BindingTypes::Imported {
        StrategyView::Unref
    } else if t == BindingTypes::SetupRef {
        StrategyView::DotValue
    } else {
        StrategyView::LeaveUnchanged
    }
}

/// The strategy of a lone identifier `sym` in the template scope `scope`.
pub fn plain_ident_transform_strategy(bindings_helper: &mut BindingsHelper, scope: u32, sym: &str) -> (r: IdentTransformStrategy)
    requires
        exists|n: nat| chain_ends(old(bindings_helper).template_scopes@, scope as int, n),
        old(bindings_helper).template_generation_mode == TemplateGenerationMode::Inline || forall|n: nat|
            chain_ends(old(bindings_helper).template_scopes@, scope as int, n) ==> spec_binding_type(*old(bindings_helper), scope, sym@, n).0
                != BindingTypes::PropsAliased,
    ensures
        forall|n: nat| chain_ends(old(bindings_helper).template_scopes@, scope as int, n) ==> {
            let (t, remembered) = spec_binding_type(*old(bindings_helper), scope, sym@, n);
            &&& strategy_view(r) == plain_ident_strategy(*old(bindings_helper), scope,
                old(bindings_helper).template_generation_mode == TemplateGenerationMode::Inline, sym@, n)
            &&& cache_view(final(bindings_helper).used_bindings@) == if remembered {
                cache_view(old(bindings_helper).used_bindings@).push((sym@, t))
            } else {
                cache_view(old(bindings_helper).used_bindings@)
            }
        },
        final(bindings_helper).setup_bindings == old(bindings_helper).setup_bindings,
        final(bindings_helper).options_api_bindings == old(bindings_helper).options_api_bindings,
        final(bindings_helper).template_scopes == old(bindings_helper).template_scopes,
        final(bindings_helper).template_generation_mode == old(bindings_helper).template_generation_mode,
        final(bindings_helper).components == old(bindings_helper).components,
        final(bindings_helper).custom_directives == old(bindings_helper).custom_directives,
{
    let is_inline = bindings_helper.template_generation_mode == TemplateGenerationMode::Inline;
    let mut state = IdentTransformState {
        local_vars: Vec::new(),
        current_scope: scope,
        is_inline,
        is_in_destructure_assign: false,
        is_in_assign_target: false,
        is_v_model_transform: false,
        has_update_expr: false,
        has_js_bindings: false,
    };
    assert(!spec_contains(state.local_vars@, sym@));
    let ghost state0 = state;
    let ghost h0 = *bindings_helper;
    let r = state.determine_ident_transform_strategy(bindings_helper, sym);
    assert forall|n: nat| chain_ends(h0.template_scopes@, scope as int, n) implies strategy_view(r)
        == plain_ident_strategy(h0, scope, is_inline, sym@, n) by {
        assert(strategy_view(r) == spec_strategy(state0, h0, sym@, n).0);
    }
    r
}

/// Looking a name up again gives what the first lookup gave: a binding remembered
/// by the first lookup is found the same by the next, whatever happens to the
/// script bindings in between.
pub proof fn lemma_lookup_remembered(h: BindingsHelper, h2: BindingsHelper, scope: u32, variable: Seq<char>, n: nat)
    requires
        h2.template_scopes == h.template_scopes,
        ({
            let (t, remembered) = spec_binding_type(h, scope, variable, n);
            cache_view(h2.used_bindings@) == if remembered {
                cache_view(h.used_bindings@).push((variable, t))
            } else {
                cache_view(h.used_bindings@)
            }
        }),
        spec_binding_type(h, scope, variable, n).1 || (h2.setup_bindings == h.setup_bindings
            && h2.options_api_bindings == h.options_api_bindings),
    ensures
        spec_binding_type(h2, scope, variable, n).0 == spec_binding_type(h, scope, variable, n).0,
{
    let (t, remembered) = spec_binding_type(h, scope, variable, n);
    if remembered {
        let c = cache_view(h.used_bindings@);
        assert(find_type(c, variable) is None);
        lemma_find_type_append(c, seq![(variable, t)], variable);
        assert(c.push((variable, t)) =~= c + seq![(variable, t)]);
        assert(find_type(seq![(variable, t)], variable) == Some(t));
    }
}

// ---------------------------------------------------------------------------
// Rewriting a whole expression.
// ---------------------------------------------------------------------------

/// What stays the same while one expression is rewritten: the bindings as they
/// were when the rewriting started, the template scope (with a number of steps
/// in which its parent chain ends), the mode, and whether a `v-model` handler is
/// rewritten.
pub struct RewriteEnv {
    pub h: BindingsHelper,
    pub scope: u32,
    pub inline: bool,
    pub v_model: bool,
    pub fuel: nat,
}

/// The strategy of `x` and whether it makes the expression use bindings that
/// change, with the local variables `locals`.
pub open spec fn env_strategy(env: RewriteEnv, locals: Seq<Seq<char>>, in_target: bool, has_update: bool, x: Seq<char>) -> (StrategyView, bool) {
    ident_strategy(env.h, env.scope, env.inline, locals.contains(x), false, in_target, env.v_model, has_update, x, env.fuel)
}

/// An identifier as its strategy writes it: `x.value`, `_unref(x)`, `prefix.x`,
/// or `x` itself.
pub open spec fn written_ident(s: StrategyView, x: Seq<char>) -> ExprV {
    match s {
        StrategyView::DotValue => ExprV::Member(Box::new(ExprV::Ident(x)), "value"@),
        StrategyView::Unref => ExprV::Call(Box::new(ExprV::Ident("_unref"@)), seq![ExprV::Ident(x)]),
        StrategyView::Prefix(p) => ExprV::Member(Box::new(ExprV::Ident(p)), x),
        _ => ExprV::Ident(x),
    }
}

/// An identifier assigned to, as its strategy writes it; where the strategy
/// would unwrap it, it stays.
pub open spec fn written_target(s: StrategyView, x: Seq<char>) -> ExprV {
    match s {
        StrategyView::DotValue => ExprV::Member(Box::new(ExprV::Ident(x)), "value"@),
        StrategyView::Prefix(p) => ExprV::Member(Box::new(ExprV::Ident(p)), x),
        _ => ExprV::Ident(x),
    }
}

/// `test ? cons : alt`
pub open spec fn cond_expr(test: ExprV, cons: ExprV, alt: ExprV) -> ExprV {
    ExprV::Template(seq![Seq::empty(), "?"@, ":"@, Seq::empty()], seq![test, cons, alt])
}

/// `_isRef(x)`
pub open spec fn is_ref_call(x: Seq<char>) -> ExprV {
    ExprV::Call(Box::new(ExprV::Ident("_isRef"@)), seq![ExprV::Ident(x)])
}

/// Whether an assignment to `x` in inline mode checks whether `x` is a ref: `x`
/// is a `let` of `<script setup>`, or, in a `v-model` handler, a value that may
/// be a ref.
pub open spec fn needs_is_ref_assign(env: RewriteEnv, x: Seq<char>) -> bool {
    let t = spec_binding_type(env.h, env.scope, x, env.fuel).0;
    env.inline && (t == BindingTypes::SetupLet || (env.v_model && t == BindingTypes::SetupMaybeRef))
}

/// `_isRef(x) ? x.value op value : x op value`, where `x` is a `let`;
/// `_isRef(x) ? x.value op value : null` otherwise (it cannot be reassigned).
pub open spec fn is_ref_assign(env: RewriteEnv, x: Seq<char>, op: Seq<char>, value: ExprV) -> ExprV {
    cond_expr(
        is_ref_call(x),
        ExprV::Assign(Box::new(ExprV::Member(Box::new(ExprV::Ident(x)), "value"@)), op, Box::new(value)),
        if spec_binding_type(env.h, env.scope, x, env.fuel).0 == BindingTypes::SetupLet {
            ExprV::Assign(Box::new(ExprV::Ident(x)), op, Box::new(value))
        } else {
            ExprV::Template(seq!["null"@], Seq::empty())
        },
    )
}

/// `e` with its identifiers written by their strategies: the parameters of an
/// arrow function are local variables in its body; an assignment's value is
/// rewritten before its target, which is rewritten as an assignment target; an
/// update of an identifier that is a `let` in inline mode becomes
/// `_isRef(x) ? x.value++ : x++`; a member's property name stays, and so does the
/// index of an identifier's indexing (`a[b]`); an object shorthand `{ a }` is
/// written out as `{ a: <a rewritten> }`.
pub open spec fn rewritten(env: RewriteEnv, locals: Seq<Seq<char>>, in_target: bool, e: ExprV) -> ExprV
    decreases e,
{
    match e {
        ExprV::Ident(x) => written_ident(env_strategy(env, locals, in_target, false, x).0, x),
        ExprV::Member(o, p) => ExprV::Member(Box::new(rewritten(env, locals, in_target, *o)), p),
        ExprV::Index(o, i) => ExprV::Index(Box::new(rewritten(env, locals, in_target, *o)),
            if *o is Ident { i } else { Box::new(rewritten(env, locals, in_target, *i)) }),
        ExprV::Call(c, args) => ExprV::Call(Box::new(rewritten(env, locals, in_target, *c)), Seq::new(args.len(), |k: int|
            if 0 <= k < args.len() { rewritten(env, locals, in_target, args[k]) } else { ExprV::Ident(Seq::empty()) })),
        ExprV::Arrow(ps, b) => ExprV::Arrow(ps, Box::new(rewritten(env, locals + ps, in_target, *b))),
        ExprV::Assign(t, op, v) => {
            let v2 = rewritten(env, locals, in_target, *v);
            match *t {
                ExprV::Ident(x) => if needs_is_ref_assign(env, x) {
                    is_ref_assign(env, x, op, v2)
                } else {
                    ExprV::Assign(Box::new(written_target(env_strategy(env, locals, true, false, x).0, x)), op, Box::new(v2))
                },
                _ => ExprV::Assign(Box::new(rewritten(env, locals, true, *t)), op, Box::new(v2)),
            }
        },
        ExprV::Update(op, prefix, a) => match *a {
            ExprV::Ident(x) => {
                let s = env_strategy(env, locals, in_target, true, x).0;
                if s is IsRefCheckUpdate {
                    cond_expr(is_ref_call(x),
                        ExprV::Update(op, prefix, Box::new(ExprV::Member(Box::new(ExprV::Ident(x)), "value"@))),
                        ExprV::Update(op, prefix, Box::new(ExprV::Ident(x))))
                } else {
                    ExprV::Update(op, prefix, Box::new(written_ident(s, x)))
                }
            },
            _ => ExprV::Update(op, prefix, Box::new(rewritten(env, locals, in_target, *a))),
        },
        ExprV::Object(props) => ExprV::Object(Seq::new(props.len(), |k: int|
            if 0 <= k < props.len() { rewritten_prop(env, locals, in_target, props[k]) } else { PropV::Shorthand(Seq::empty()) })),
        ExprV::Template(pieces, subs) => ExprV::Template(pieces, Seq::new(subs.len(), |k: int|
            if 0 <= k < subs.len() { rewritten(env, locals, in_target, subs[k]) } else { ExprV::Ident(Seq::empty()) })),
    }
}

pub open spec fn rewritten_prop(env: RewriteEnv, locals: Seq<Seq<char>>, in_target: bool, p: PropV) -> PropV
    decreases p,
{
    match p {
        PropV::Shorthand(x) => PropV::KeyValue(x, Box::new(written_ident(env_strategy(env, locals, in_target, false, x).0, x))),
        PropV::KeyValue(key, v) => PropV::KeyValue(key, Box::new(rewritten(env, locals, in_target, *v))),
        PropV::Spread(v) => PropV::Spread(Box::new(rewritten(env, locals, in_target, *v))),
    }
}

/// Whether rewriting `e` meets a binding that changes: an identifier whose
/// strategy says so, or an object shorthand.
pub open spec fn uses_bindings(env: RewriteEnv, locals: Seq<Seq<char>>, in_target: bool, e: ExprV) -> bool
    decreases e, 0int,
{
    match e {
        ExprV::Ident(x) => env_strategy(env, locals, in_target, false, x).1,
        ExprV::Member(o, p) => uses_bindings(env, locals, in_target, *o),
        ExprV::Index(o, i) => uses_bindings(env, locals, in_target, *o) || (!(*o is Ident) && uses_bindings(env, locals, in_target, *i)),
        ExprV::Call(c, args) => uses_bindings(env, locals, in_target, *c) || list_uses_bindings(env, locals, in_target, args, 0),
        ExprV::Arrow(ps, b) => uses_bindings(env, locals + ps, in_target, *b),
        ExprV::Assign(t, op, v) => uses_bindings(env, locals, in_target, *v) || match *t {
            ExprV::Ident(x) => !needs_is_ref_assign(env, x) && env_strategy(env, locals, true, false, x).1,
            _ => uses_bindings(env, locals, true, *t),
        },
        ExprV::Update(op, prefix, a) => match *a {
            ExprV::Ident(x) => env_strategy(env, locals, in_target, true, x).1,
            _ => uses_bindings(env, locals, in_target, *a),
        },
        ExprV::Object(props) => props_use_bindings(env, locals, in_target, props, 0),
        ExprV::Template(pieces, subs) => list_uses_bindings(env, locals, in_target, subs, 0),
    }
}

/// Whether rewriting one of `es` from the `k`-th on meets a binding that changes.
pub open spec fn list_uses_bindings(env: RewriteEnv, locals: Seq<Seq<char>>, in_target: bool, es: Seq<ExprV>, k: int) -> bool
    decreases es, es.len() - k,
{
    if k < 0 || k >= es.len() {
        false
    } else {
        uses_bindings(env, locals, in_target, es[k]) || list_uses_bindings(env, locals, in_target, es, k + 1)
    }
}

/// Whether rewriting one of `props` from the `k`-th on meets a binding that changes.
pub open spec fn props_use_bindings(env: RewriteEnv, locals: Seq<Seq<char>>, in_target: bool, props: Seq<PropV>, k: int) -> bool
    decreases props, props.len() - k,
{
    if k < 0 || k >= props.len() {
        false
    } else {
        prop_uses_bindings(env, locals, in_target, props[k]) || props_use_bindings(env, locals, in_target, props, k + 1)
    }
}

pub open spec fn prop_uses_bindings(env: RewriteEnv, locals: Seq<Seq<char>>, in_target: bool, p: PropV) -> bool
    decreases p, 0int,
{
    match p {
        PropV::Shorthand(x) => true,
        PropV::KeyValue(key, v) => uses_bindings(env, locals, in_target, *v),
        PropV::Spread(v) => uses_bindings(env, locals, in_target, *v),
    }
}

/// What the rewriting keeps from the start to the end of an expression.
#[verifier::opaque]
pub open spec fn rewrite_ready(env: RewriteEnv, st: IdentTransformState, h: BindingsHelper) -> bool {
    &&& st.current_scope == env.scope
    &&& st.is_inline == env.inline
    &&& st.is_v_model_transform == env.v_model
    &&& !st.is_in_destructure_assign
    &&& !st.has_update_expr
    &&& chain_ends(env.h.template_scopes@, env.scope as int, env.fuel)
    &&& h.template_scopes == env.h.template_scopes
    &&& h.setup_bindings == env.h.setup_bindings
    &&& h.options_api_bindings == env.h.options_api_bindings
    &&& h.template_generation_mode == env.h.template_generation_mode
    &&& h.components == env.h.components
    &&& h.custom_directives == env.h.custom_directives
    &&& forall|v: Seq<char>| #[trigger] spec_binding_type(h, env.scope, v, env.fuel).0
        == spec_binding_type(env.h, env.scope, v, env.fuel).0
    &&& env.inline || no_aliased_props(h)
}

/// A lookup changes no other lookup: what it remembers is what it found.
proof fn lemma_lookups_kept(h: BindingsHelper, h2: BindingsHelper, scope: u32, sym: Seq<char>, n: nat)
    requires
        h2.template_scopes == h.template_scopes,
        h2.setup_bindings == h.setup_bindings,
        h2.options_api_bindings == h.options_api_bindings,
        cache_view(h2.used_bindings@) == cache_view(h.used_bindings@) || (spec_binding_type(h, scope, sym, n).1
            && cache_view(h2.used_bindings@) == cache_view(h.used_bindings@).push((sym, spec_binding_type(h, scope, sym, n).0))),
    ensures
        forall|v: Seq<char>| #[trigger] spec_binding_type(h2, scope, v, n).0 == spec_binding_type(h, scope, v, n).0,
{
    let c = cache_view(h.used_bindings@);
    if cache_view(h2.used_bindings@) != c {
        let t = spec_binding_type(h, scope, sym, n).0;
        assert forall|v: Seq<char>| #[trigger] spec_binding_type(h2, scope, v, n).0 == spec_binding_type(h, scope, v, n).0 by {
            if v == sym {
                lemma_lookup_remembered(h, h2, scope, sym, n);
            } else {
                lemma_find_type_append(c, seq![(sym, t)], v);
                assert(c.push((sym, t)) =~= c + seq![(sym, t)]);
                assert(seq![(sym, t)].skip(1) =~= Seq::<(Seq<char>, BindingTypes)>::empty());
                assert(find_type(Seq::<(Seq<char>, BindingTypes)>::empty(), v) is None);
                assert(find_type(seq![(sym, t)], v) is None);
                assert(find_type(cache_view(h2.used_bindings@), v) == find_type(c, v));
            }
        }
    }
}

proof fn lemma_contains_names(v: Seq<String>, x: Seq<char>)
    ensures
        spec_contains(v, x) == names_view(v).contains(x),
{
    if spec_contains(v, x) {
        let k = choose|k: int| 0 <= k < v.len() && #[trigger] v[k]@ == x;
        assert(names_view(v)[k] == x);
    }
    if names_view(v).contains(x) {
        let k = choose|k: int| 0 <= k < names_view(v).len() && names_view(v)[k] == x;
        assert(v[k]@ == x);
    }
}

/// A number of steps in which the parent chain of `scope` ends, where there is one.
pub open spec fn scope_fuel(scopes: Seq<Scope>, scope: u32) -> nat {
    choose|n: nat| chain_ends(scopes, scope as int, n)
}

/// The environment in which `st` rewrites an expression with the bindings `h`.
pub open spec fn env_of(st: IdentTransformState, h: BindingsHelper) -> RewriteEnv {
    RewriteEnv {
        h,
        scope: st.current_scope,
        inline: st.is_inline,
        v_model: st.is_v_model_transform,
        fuel: scope_fuel(h.template_scopes@, st.current_scope),
    }
}

/// What rewriting `e` into `r` leaves behind, from the state `st0` to `st` and
/// the bindings `h`.
spec fn rewrite_done(env: RewriteEnv, st0: IdentTransformState, st: IdentTransformState, h: BindingsHelper, e: ExprV, r: ExprV) -> bool {
    &&& r == rewritten(env, names_view(st0.local_vars@), st0.is_in_assign_target, e)
    &&& st.has_js_bindings == (st0.has_js_bindings || uses_bindings(env, names_view(st0.local_vars@), st0.is_in_assign_target, e))
    &&& st.local_vars@ == st0.local_vars@
    &&& st.is_in_assign_target == st0.is_in_assign_target
    &&& rewrite_ready(env, st, h)
}

fn written_ident_exec(s: IdentTransformStrategy, x: &String) -> (r: ScriptExpr)
    ensures
        expr_view(r) == written_ident(strategy_view(s), x@),
{
    proof {
        reveal_with_fuel(expr_view, 2);
    }
    match s {
        IdentTransformStrategy::DotValue => ScriptExpr::Member(Box::new(ScriptExpr::Ident(x.clone())), to_owned_string("value")),
        IdentTransformStrategy::Unref => {
            let args = vec![ScriptExpr::Ident(x.clone())];
            assert(exprs_view(args@) =~= seq![ExprV::Ident(x@)]);
            ScriptExpr::Call(Box::new(ScriptExpr::Ident(to_owned_string("_unref"))), args)
        },
        IdentTransformStrategy::Prefix(p) => ScriptExpr::Member(Box::new(ScriptExpr::Ident(to_owned_string(p))), x.clone()),
        _ => ScriptExpr::Ident(x.clone()),
    }
}

fn written_target_exec(s: IdentTransformStrategy, x: &String) -> (r: ScriptExpr)
    ensures
        expr_view(r) == written_target(strategy_view(s), x@),
{
    proof {
        reveal_with_fuel(expr_view, 2);
    }
    match s {
        IdentTransformStrategy::DotValue => ScriptExpr::Member(Box::new(ScriptExpr::Ident(x.clone())), to_owned_string("value")),
        IdentTransformStrategy::Prefix(p) => ScriptExpr::Member(Box::new(ScriptExpr::Ident(to_owned_string(p))), x.clone()),
        _ => ScriptExpr::Ident(x.clone()),
    }
}

fn cond_exec(test: ScriptExpr, cons: ScriptExpr, alt: ScriptExpr) -> (r: ScriptExpr)
    ensures
        expr_view(r) == cond_expr(expr_view(test), expr_view(cons), expr_view(alt)),
{
    let pieces = vec![String::new(), to_owned_string("?"), to_owned_string(":"), String::new()];
    let ghost (tv, cv, av) = (expr_view(test), expr_view(cons), expr_view(alt));
    let subs = vec![test, cons, alt];
    assert(names_view(pieces@) =~= seq![Seq::empty(), "?"@, ":"@, Seq::empty()]);
    assert(exprs_view(subs@) =~= seq![tv, cv, av]);
    ScriptExpr::Template(pieces, subs)
}

fn is_ref_call_exec(x: &String) -> (r: ScriptExpr)
    ensures
        expr_view(r) == is_ref_call(x@),
{
    proof {
        reveal_with_fuel(expr_view, 2);
    }
    let args = vec![ScriptExpr::Ident(x.clone())];
    assert(exprs_view(args@) =~= seq![ExprV::Ident(x@)]);
    ScriptExpr::Call(Box::new(ScriptExpr::Ident(to_owned_string("_isRef"))), args)
}

fn push_names(v: &mut Vec<String>, ps: &Vec<String>)
    ensures
        names_view(final(v)@) == names_view(old(v)@) + names_view(ps@),
        final(v)@.len() == old(v)@.len() + ps@.len(),
        final(v)@.take(old(v)@.len() as int) == old(v)@,
{
    let mut k: usize = 0;
    while k < ps.len()
        invariant
            k <= ps.len(),
            v@.len() == old(v)@.len() + k,
            v@.take(old(v)@.len() as int) == old(v)@,
            names_view(v@) == names_view(old(v)@) + names_view(ps@).take(k as int),
        decreases ps.len() - k,
    {
        let ghost before = v@;
        let c = ps[k].clone();
        assert(c@ == names_view(ps@)[k as int]);
        v.push(c);
        assert(names_view(v@) =~= names_view(before).push(c@));
        assert(names_view(ps@).take(k + 1) =~= names_view(ps@).take(k as int).push(c@));
        assert(v@.take(old(v)@.len() as int) =~= before.take(old(v)@.len() as int));
        assert(names_view(v@) =~= names_view(old(v)@) + names_view(ps@).take(k + 1));
        k = k + 1;
    }
    assert(names_view(ps@).take(k as int) =~= names_view(ps@));
}

fn truncate_names(v: &mut Vec<String>, len: usize)
    requires
        len <= old(v)@.len(),
    ensures
        final(v)@ == old(v)@.take(len as int),
{
    while v.len() > len
        invariant
            len <= v@.len() <= old(v)@.len(),
            v@ == old(v)@.take(v@.len() as int),
        decreases v@.len(),
    {
        v.pop();
    }
    assert(v@ =~= old(v)@.take(len as int));
}

impl IdentTransformState {
    /// The strategy of the identifier `x` as the rewriting meets it (`has_update`
    /// for the identifier of an update).
    fn ident_step(&mut self, h: &mut BindingsHelper, x: &str, has_update: bool, Ghost(env): Ghost<RewriteEnv>) -> (r: IdentTransformStrategy)
        requires
            rewrite_ready(env, *old(self), *old(h)),
        ensures
            strategy_view(r) == env_strategy(env, names_view(old(self).local_vars@), old(self).is_in_assign_target, has_update, x@).0,
            final(self).has_js_bindings == (old(self).has_js_bindings
                || env_strategy(env, names_view(old(self).local_vars@), old(self).is_in_assign_target, has_update, x@).1),
            final(self).local_vars@ == old(self).local_vars@,
            final(self).is_in_assign_target == old(self).is_in_assign_target,
            rewrite_ready(env, *final(self), *final(h)),
    {
        proof {
            reveal(rewrite_ready);
            if !env.inline {
                assert forall|n: nat| chain_ends(old(h).template_scopes@, env.scope as int, n) implies
                    spec_binding_type(*old(h), env.scope, x@, n).0 != BindingTypes::PropsAliased by {
                    lemma_no_aliased_lookup(*old(h), env.scope, x@, n);
                }
            }
        }
        self.has_update_expr = has_update;
        let ghost st0 = *self;
        let ghost h0 = *h;
        let r = self.determine_ident_transform_strategy(h, x);
        self.has_update_expr = false;
        proof {
            lemma_contains_names(st0.local_vars@, x@);
            let t = spec_binding_type(h0, env.scope, x@, env.fuel).0;
            assert(t == spec_binding_type(env.h, env.scope, x@, env.fuel).0);
            assert(chain_ends(h0.template_scopes@, st0.current_scope as int, env.fuel));
            assert((strategy_view(r), self.has_js_bindings) == spec_strategy(st0, h0, x@, env.fuel));
            assert(spec_strategy(st0, h0, x@, env.fuel).0 == env_strategy(env, names_view(st0.local_vars@),
                st0.is_in_assign_target, has_update, x@).0);
            let c0 = cache_view(h0.used_bindings@);
            assert(cache_view(h.used_bindings@) == if spec_binding_type(h0, env.scope, x@, env.fuel).1
                && !spec_contains(st0.local_vars@, x@) { c0.push((x@, t)) } else { c0 });
            lemma_lookups_kept(h0, *h, env.scope, x@, env.fuel);
            if !env.inline {
                lemma_no_aliased_lookup(h0, env.scope, x@, env.fuel);
                assert forall|i: int| 0 <= i < h.used_bindings@.len() implies (#[trigger] h.used_bindings@[i]).1
                    != BindingTypes::PropsAliased by {
                    assert(cache_view(h.used_bindings@)[i].1 == h.used_bindings@[i].1);
                    if i < h0.used_bindings@.len() {
                        assert(c0[i].1 == h0.used_bindings@[i].1);
                    } else {
                        assert(cache_view(h.used_bindings@)[i].1 == t);
                    }
                }
            }
        }
        r
    }

    /// The type of the binding of `x`, looked up as an assignment to it does.
    fn binding_step(&mut self, h: &mut BindingsHelper, x: &str, Ghost(env): Ghost<RewriteEnv>) -> (r: BindingTypes)
        requires
            rewrite_ready(env, *old(self), *old(h)),
        ensures
            r == spec_binding_type(env.h, env.scope, x@, env.fuel).0,
            *final(self) == *old(self),
            rewrite_ready(env, *final(self), *final(h)),
    {
        proof {
            reveal(rewrite_ready);
        }
        let ghost h0 = *h;
        let r = h.get_var_binding_type(self.current_scope, x);
        proof {
            let t = spec_binding_type(h0, env.scope, x@, env.fuel).0;
            assert(chain_ends(h0.template_scopes@, self.current_scope as int, env.fuel));
            let c0 = cache_view(h0.used_bindings@);
            assert(cache_view(h.used_bindings@) == if spec_binding_type(h0, env.scope, x@, env.fuel).1
                { c0.push((x@, t)) } else { c0 });
            lemma_lookups_kept(h0, *h, env.scope, x@, env.fuel);
            if !env.inline {
                lemma_no_aliased_lookup(h0, env.scope, x@, env.fuel);
                assert forall|i: int| 0 <= i < h.used_bindings@.len() implies (#[trigger] h.used_bindings@[i]).1
                    != BindingTypes::PropsAliased by {
                    assert(cache_view(h.used_bindings@)[i].1 == h.used_bindings@[i].1);
                    if i < h0.used_bindings@.len() {
                        assert(cache_view(h0.used_bindings@)[i].1 == h0.used_bindings@[i].1);
                    } else {
                        assert(cache_view(h.used_bindings@)[i].1 == t);
                    }
                }
            }
        }
        r
    }

    fn rewrite(&mut self, h: &mut BindingsHelper, e: &ScriptExpr, Ghost(env): Ghost<RewriteEnv>) -> (r: ScriptExpr)
        requires
            rewrite_ready(env, *old(self), *old(h)),
        ensures
            rewrite_done(env, *old(self), *final(self), *final(h), expr_view(*e), expr_view(r)),
        decreases e, 1int, 0int,
    {
        match e {
            ScriptExpr::Ident(x) => {
                let s = self.ident_step(h, x.as_str(), false, Ghost(env));
                written_ident_exec(s, x)
            },
            ScriptExpr::Member(o, p) => {
                let o2 = self.rewrite(h, o, Ghost(env));
                ScriptExpr::Member(Box::new(o2), p.clone())
            },
            ScriptExpr::Index(o, i) => {
                let o2 = self.rewrite(h, o, Ghost(env));
                let i2 = match &**o {
                    ScriptExpr::Ident(_) => copy_expr(i),
                    _ => self.rewrite(h, i, Ghost(env)),
                };
                ScriptExpr::Index(Box::new(o2), Box::new(i2))
            },
            ScriptExpr::Call(_, _) => self.rewrite_call(h, e, Ghost(env)),
            ScriptExpr::Arrow(_, _) => self.rewrite_arrow(h, e, Ghost(env)),
            ScriptExpr::Assign(_, _, _) => self.rewrite_assign(h, e, Ghost(env)),
            ScriptExpr::Update(_, _, _) => self.rewrite_update(h, e, Ghost(env)),
            ScriptExpr::Object(_) => self.rewrite_object(h, e, Ghost(env)),
            ScriptExpr::Template(_, _) => self.rewrite_template(h, e, Ghost(env)),
        }
    }

    #[verifier::spinoff_prover]
    #[verifier::rlimit(50)]
    fn rewrite_call(&mut self, h: &mut BindingsHelper, e: &ScriptExpr, Ghost(env): Ghost<RewriteEnv>) -> (r: ScriptExpr)
        requires
            rewrite_ready(env, *old(self), *old(h)),
            *e is Call,
        ensures
            rewrite_done(env, *old(self), *final(self), *final(h), expr_view(*e), expr_view(r)),
        decreases e, 0int, 0int,
    {
        match e {
            ScriptExpr::Call(c, args) => {
                let c2 = self.rewrite(h, c, Ghost(env));
                let args2 = self.rewrite_list(h, args, Ghost(env));
                let r = ScriptExpr::Call(Box::new(c2), args2);
                proof {
                    let av = exprs_view(args@);
                    assert forall|k: int| 0 <= k < av.len() implies exprs_view(args2@)[k]
                        == rewritten(env, names_view(old(self).local_vars@), old(self).is_in_assign_target, av[k]) by {
                        assert(rewritten(env, names_view(old(self).local_vars@), old(self).is_in_assign_target, expr_view(args@[k])) == expr_view(args2@[k]));
                    }
                    assert(exprs_view(args2@) =~= rewritten(env, names_view(old(self).local_vars@), old(self).is_in_assign_target, expr_view(*e))->Call_1);
                }
                r
            },
            _ => vstd::pervasive::unreached(),
        }
    }

    fn rewrite_arrow(&mut self, h: &mut BindingsHelper, e: &ScriptExpr, Ghost(env): Ghost<RewriteEnv>) -> (r: ScriptExpr)
        requires
            rewrite_ready(env, *old(self), *old(h)),
            *e is Arrow,
        ensures
            rewrite_done(env, *old(self), *final(self), *final(h), expr_view(*e), expr_view(r)),
        decreases e, 0int, 0int,
    {
        proof {
            reveal(rewrite_ready);
        }
        match e {
            ScriptExpr::Arrow(ps, b) => {
                let old_len = self.local_vars.len();
                let ghost lv0 = self.local_vars@;
                push_names(&mut self.local_vars, ps);
                let b2 = self.rewrite(h, b, Ghost(env));
                truncate_names(&mut self.local_vars, old_len);
                assert(self.local_vars@ =~= lv0);
                ScriptExpr::Arrow(copy_names(ps), Box::new(b2))
            },
            _ => vstd::pervasive::unreached(),
        }
    }

    fn rewrite_assign(&mut self, h: &mut BindingsHelper, e: &ScriptExpr, Ghost(env): Ghost<RewriteEnv>) -> (r: ScriptExpr)
        requires
            rewrite_ready(env, *old(self), *old(h)),
            *e is Assign,
        ensures
            rewrite_done(env, *old(self), *final(self), *final(h), expr_view(*e), expr_view(r)),
        decreases e, 0int, 0int,
    {
        proof {
            reveal(rewrite_ready);
        }
        match e {
            ScriptExpr::Assign(t, op, v) => {
                let v2 = self.rewrite(h, v, Ghost(env));
                match &**t {
                    ScriptExpr::Ident(x) => self.rewrite_ident_assign(h, x, op, v2, Ghost(env)),
                    _ => {
                        let saved = self.is_in_assign_target;
                        self.is_in_assign_target = true;
                        let t2 = self.rewrite(h, t, Ghost(env));
                        self.is_in_assign_target = saved;
                        assert(expr_view(t2) == rewritten(env, names_view(old(self).local_vars@), true, expr_view(**t)));
                        assert(self.local_vars@ == old(self).local_vars@);
                        ScriptExpr::Assign(Box::new(t2), op.clone(), Box::new(v2))
                    },
                }
            },
            _ => vstd::pervasive::unreached(),
        }
    }

    /// The assignment `x op value` with the value already rewritten.
    fn rewrite_ident_assign(&mut self, h: &mut BindingsHelper, x: &String, op: &String, v2: ScriptExpr,
        Ghost(env): Ghost<RewriteEnv>) -> (r: ScriptExpr)
        requires
            rewrite_ready(env, *old(self), *old(h)),
        ensures
            expr_view(r) == (if needs_is_ref_assign(env, x@) {
                is_ref_assign(env, x@, op@, expr_view(v2))
            } else {
                ExprV::Assign(Box::new(written_target(env_strategy(env, names_view(old(self).local_vars@), true, false, x@).0, x@)),
                    op@, Box::new(expr_view(v2)))
            }),
            final(self).has_js_bindings == (old(self).has_js_bindings || (!needs_is_ref_assign(env, x@)
                && env_strategy(env, names_view(old(self).local_vars@), true, false, x@).1)),
            final(self).local_vars@ == old(self).local_vars@,
            final(self).is_in_assign_target == old(self).is_in_assign_target,
            rewrite_ready(env, *final(self), *final(h)),
    {
        proof {
            reveal(rewrite_ready);
        }
        let special = if self.is_inline {
            let bt = self.binding_step(h, x.as_str(), Ghost(env));
            bt == BindingTypes::SetupLet || (self.is_v_model_transform && bt == BindingTypes::SetupMaybeRef)
        } else {
            false
        };
        if special {
            let bt = self.binding_step(h, x.as_str(), Ghost(env));
            let value_target = ScriptExpr::Member(Box::new(ScriptExpr::Ident(x.clone())), to_owned_string("value"));
            let v3 = copy_expr(&v2);
            proof {
                reveal_with_fuel(expr_view, 2);
            }
            let cons = ScriptExpr::Assign(Box::new(value_target), op.clone(), Box::new(v2));
            let alt = if bt == BindingTypes::SetupLet {
                ScriptExpr::Assign(Box::new(ScriptExpr::Ident(x.clone())), op.clone(), Box::new(v3))
            } else {
                let null_text = vec![to_owned_string("null")];
                let no_subs: Vec<ScriptExpr> = Vec::new();
                assert(names_view(null_text@) =~= seq!["null"@]);
                assert(exprs_view(no_subs@) =~= Seq::<ExprV>::empty());
                ScriptExpr::Template(null_text, no_subs)
            };
            let test = is_ref_call_exec(x);
            cond_exec(test, cons, alt)
        } else {
            let saved = self.is_in_assign_target;
            self.is_in_assign_target = true;
            let s = self.ident_step(h, x.as_str(), false, Ghost(env));
            self.is_in_assign_target = saved;
            let t2 = written_target_exec(s, x);
            ScriptExpr::Assign(Box::new(t2), op.clone(), Box::new(v2))
        }
    }

    fn rewrite_update(&mut self, h: &mut BindingsHelper, e: &ScriptExpr, Ghost(env): Ghost<RewriteEnv>) -> (r: ScriptExpr)
        requires
            rewrite_ready(env, *old(self), *old(h)),
            *e is Update,
        ensures
            rewrite_done(env, *old(self), *final(self), *final(h), expr_view(*e), expr_view(r)),
        decreases e, 0int, 0int,
    {
        match e {
            ScriptExpr::Update(op, prefix, a) => {
                match &**a {
                    ScriptExpr::Ident(x) => {
                        let s = self.ident_step(h, x.as_str(), true, Ghost(env));
                        proof {
                            reveal_with_fuel(expr_view, 2);
                        }
                        match s {
                            IdentTransformStrategy::IsRefCheckUpdate => {
                                let dot_value = ScriptExpr::Member(Box::new(ScriptExpr::Ident(x.clone())), to_owned_string("value"));
                                let cons = ScriptExpr::Update(op.clone(), *prefix, Box::new(dot_value));
                                let alt = ScriptExpr::Update(op.clone(), *prefix, Box::new(ScriptExpr::Ident(x.clone())));
                                cond_exec(is_ref_call_exec(x), cons, alt)
                            },
                            _ => ScriptExpr::Update(op.clone(), *prefix, Box::new(written_ident_exec(s, x))),
                        }
                    },
                    _ => {
                        let a2 = self.rewrite(h, a, Ghost(env));
                        ScriptExpr::Update(op.clone(), *prefix, Box::new(a2))
                    },
                }
            },
            _ => vstd::pervasive::unreached(),
        }
    }

    #[verifier::spinoff_prover]
    #[verifier::rlimit(50)]
    fn rewrite_object(&mut self, h: &mut BindingsHelper, e: &ScriptExpr, Ghost(env): Ghost<RewriteEnv>) -> (r: ScriptExpr)
        requires
            rewrite_ready(env, *old(self), *old(h)),
            *e is Object,
        ensures
            rewrite_done(env, *old(self), *final(self), *final(h), expr_view(*e), expr_view(r)),
        decreases e, 0int, 0int,
    {
        match e {
            ScriptExpr::Object(props) => {
                let props2 = self.rewrite_props(h, props, Ghost(env));
                let r = ScriptExpr::Object(props2);
                proof {
                    let pv = props_view(props@);
                    assert forall|k: int| 0 <= k < pv.len() implies props_view(props2@)[k]
                        == rewritten_prop(env, names_view(old(self).local_vars@), old(self).is_in_assign_target, pv[k]) by {
                        assert(rewritten_prop(env, names_view(old(self).local_vars@), old(self).is_in_assign_target, prop_view(props@[k])) == prop_view(props2@[k]));
                    }
                    assert(props_view(props2@) =~= rewritten(env, names_view(old(self).local_vars@), old(self).is_in_assign_target, expr_view(*e))->Object_0);
                }
                r
            },
            _ => vstd::pervasive::unreached(),
        }
    }

    #[verifier::spinoff_prover]
    #[verifier::rlimit(50)]
    fn rewrite_template(&mut self, h: &mut BindingsHelper, e: &ScriptExpr, Ghost(env): Ghost<RewriteEnv>) -> (r: ScriptExpr)
        requires
            rewrite_ready(env, *old(self), *old(h)),
            *e is Template,
        ensures
            rewrite_done(env, *old(self), *final(self), *final(h), expr_view(*e), expr_view(r)),
        decreases e, 0int, 0int,
    {
        match e {
            ScriptExpr::Template(pieces, subs) => {
                let subs2 = self.rewrite_list(h, subs, Ghost(env));
                let r = ScriptExpr::Template(copy_names(pieces), subs2);
                proof {
                    let av = exprs_view(subs@);
                    assert forall|k: int| 0 <= k < av.len() implies exprs_view(subs2@)[k]
                        == rewritten(env, names_view(old(self).local_vars@), old(self).is_in_assign_target, av[k]) by {
                        assert(rewritten(env, names_view(old(self).local_vars@), old(self).is_in_assign_target, expr_view(subs@[k])) == expr_view(subs2@[k]));
                    }
                    assert(exprs_view(subs2@) =~= rewritten(env, names_view(old(self).local_vars@), old(self).is_in_assign_target, expr_view(*e))->Template_1);
                }
                r
            },
            _ => vstd::pervasive::unreached(),
        }
    }

    fn rewrite_list(&mut self, h: &mut BindingsHelper, es: &Vec<ScriptExpr>, Ghost(env): Ghost<RewriteEnv>) -> (r: Vec<ScriptExpr>)
        requires
            rewrite_ready(env, *old(self), *old(h)),
        ensures
            r@.len() == es@.len(),
            forall|j: int| 0 <= j < es@.len() ==> expr_view(#[trigger] r@[j])
                == rewritten(env, names_view(old(self).local_vars@), old(self).is_in_assign_target, expr_view(es@[j])),
            final(self).has_js_bindings == (old(self).has_js_bindings
                || list_uses_bindings(env, names_view(old(self).local_vars@), old(self).is_in_assign_target, exprs_view(es@), 0)),
            final(self).local_vars@ == old(self).local_vars@,
            final(self).is_in_assign_target == old(self).is_in_assign_target,
            rewrite_ready(env, *final(self), *final(h)),
        decreases es@, 2int, 0int,
    {
        let ghost locals = names_view(self.local_vars@);
        let ghost in_target = self.is_in_assign_target;
        let ghost js0 = self.has_js_bindings;
        let ghost lv0 = self.local_vars@;
        let mut r: Vec<ScriptExpr> = Vec::new();
        let mut i: usize = 0;
        while i < es.len()
            invariant
                i <= es.len(),
                r@.len() == i,
                rewrite_ready(env, *self, *h),
                self.local_vars@ == lv0,
                locals == names_view(lv0),
                self.is_in_assign_target == in_target,
                forall|j: int| 0 <= j < i ==> expr_view(#[trigger] r@[j]) == rewritten(env, locals, in_target, expr_view(es@[j])),
                (self.has_js_bindings || list_uses_bindings(env, locals, in_target, exprs_view(es@), i as int))
                    == (js0 || list_uses_bindings(env, locals, in_target, exprs_view(es@), 0)),
            decreases es.len() - i,
        {
            proof {
                assert(decreases_to!(es@ => es@[i as int]));
            }
            let x = self.rewrite(h, &es[i], Ghost(env));
            r.push(x);
            assert(exprs_view(es@)[i as int] == expr_view(es@[i as int]));
            i = i + 1;
        }
        r
    }

    fn rewrite_props(&mut self, h: &mut BindingsHelper, props: &Vec<ObjectProp>, Ghost(env): Ghost<RewriteEnv>) -> (r: Vec<ObjectProp>)
        requires
            rewrite_ready(env, *old(self), *old(h)),
        ensures
            r@.len() == props@.len(),
            forall|j: int| 0 <= j < props@.len() ==> prop_view(#[trigger] r@[j])
                == rewritten_prop(env, names_view(old(self).local_vars@), old(self).is_in_assign_target, prop_view(props@[j])),
            final(self).has_js_bindings == (old(self).has_js_bindings
                || props_use_bindings(env, names_view(old(self).local_vars@), old(self).is_in_assign_target, props_view(props@), 0)),
            final(self).local_vars@ == old(self).local_vars@,
            final(self).is_in_assign_target == old(self).is_in_assign_target,
            rewrite_ready(env, *final(self), *final(h)),
        decreases props@, 2int, 0int,
    {
        proof {
            reveal(rewrite_ready);
        }
        let ghost locals = names_view(self.local_vars@);
        let ghost in_target = self.is_in_assign_target;
        let ghost js0 = self.has_js_bindings;
        let ghost lv0 = self.local_vars@;
        let mut r: Vec<ObjectProp> = Vec::new();
        let mut i: usize = 0;
        while i < props.len()
            invariant
                i <= props.len(),
                r@.len() == i,
                rewrite_ready(env, *self, *h),
                self.local_vars@ == lv0,
                locals == names_view(lv0),
                self.is_in_assign_target == in_target,
                forall|j: int| 0 <= j < i ==> prop_view(#[trigger] r@[j]) == rewritten_prop(env, locals, in_target, prop_view(props@[j])),
                (self.has_js_bindings || props_use_bindings(env, locals, in_target, props_view(props@), i as int))
                    == (js0 || props_use_bindings(env, locals, in_target, props_view(props@), 0)),
            decreases props.len() - i,
        {
            proof {
                assert(decreases_to!(props@ => props@[i as int]));
            }
            proof {
                reveal(rewrite_ready);
            }
            let p = match &props[i] {
                ObjectProp::Shorthand(x) => {
                    let s = self.ident_step(h, x.as_str(), false, Ghost(env));
                    self.has_js_bindings = true;
                    assert(prop_uses_bindings(env, locals, in_target, prop_view(props@[i as int])));
                    ObjectProp::KeyValue(x.clone(), Box::new(written_ident_exec(s, x)))
                },
                ObjectProp::KeyValue(key, v) => ObjectProp::KeyValue(key.clone(), Box::new(self.rewrite(h, v, Ghost(env)))),
                ObjectProp::Spread(v) => ObjectProp::Spread(Box::new(self.rewrite(h, v, Ghost(env)))),
            };
            r.push(p);
            assert(props_view(props@)[i as int] == prop_view(props@[i as int]));
            assert(props_use_bindings(env, locals, in_target, props_view(props@), i as int)
                == (prop_uses_bindings(env, locals, in_target, prop_view(props@[i as int]))
                || props_use_bindings(env, locals, in_target, props_view(props@), i + 1)));
            i = i + 1;
        }
        r
    }

    /// Rewrites the identifiers of `expr` (see [`rewritten`]), as seen from this
    /// state's template scope and local variables, and returns whether the
    /// expression now uses bindings that change (see [`uses_bindings`]). The
    /// lookups remember what they find in `bindings_helper`, which changes no
    /// later lookup.
    pub fn transform_js_expr(&mut self, bindings_helper: &mut BindingsHelper, expr: &mut ScriptExpr) -> (r: bool)
        requires
            exists|n: nat| chain_ends(old(bindings_helper).template_scopes@, old(self).current_scope as int, n),
            old(self).is_inline || no_aliased_props(*old(bindings_helper)),
            !old(self).is_in_destructure_assign,
            !old(self).has_update_expr,
        ensures
            expr_view(*final(expr)) == rewritten(env_of(*old(self), *old(bindings_helper)), names_view(old(self).local_vars@),
                old(self).is_in_assign_target, expr_view(*old(expr))),
            r == final(self).has_js_bindings,
            r == (old(self).has_js_bindings || uses_bindings(env_of(*old(self), *old(bindings_helper)),
                names_view(old(self).local_vars@), old(self).is_in_assign_target, expr_view(*old(expr)))),
            final(self).local_vars@ == old(self).local_vars@,
            final(self).current_scope == old(self).current_scope,
            final(self).is_inline == old(self).is_inline,
            final(self).is_in_assign_target == old(self).is_in_assign_target,
            forall|v: Seq<char>, n: nat| chain_ends(old(bindings_helper).template_scopes@, old(self).current_scope as int, n)
                && n == scope_fuel(old(bindings_helper).template_scopes@, old(self).current_scope)
                ==> #[trigger] spec_binding_type(*final(bindings_helper), old(self).current_scope, v, n).0
                    == spec_binding_type(*old(bindings_helper), old(self).current_scope, v, n).0,
            final(bindings_helper).setup_bindings == old(bindings_helper).setup_bindings,
            final(bindings_helper).options_api_bindings == old(bindings_helper).options_api_bindings,
            final(bindings_helper).template_scopes == old(bindings_helper).template_scopes,
            final(bindings_helper).template_generation_mode == old(bindings_helper).template_generation_mode,
            final(bindings_helper).components == old(bindings_helper).components,
            final(bindings_helper).custom_directives == old(bindings_helper).custom_directives,
            !old(self).is_inline ==> no_aliased_props(*final(bindings_helper)),
    {
        proof {
            reveal(rewrite_ready);
        }
        let ghost env = env_of(*self, *bindings_helper);
        let r = self.rewrite(bindings_helper, expr, Ghost(env));
        *expr = r;
        self.has_js_bindings
    }
}

/// The environment in which the bindings `h` rewrite an expression of the
/// template scope `scope` outside any `v-model` handler.
pub open spec fn template_env(h: BindingsHelper, scope: u32) -> RewriteEnv {
    RewriteEnv {
        h,
        scope,
        inline: h.template_generation_mode == TemplateGenerationMode::Inline,
        v_model: false,
        fuel: scope_fuel(h.template_scopes@, scope),
    }
}

impl BindingsHelper {
    /// Transforms the template expression `expr` of the template scope
    /// `scope_to_use` (see [`rewritten`]), and returns whether it uses bindings
    /// that change (see [`uses_bindings`]).
    pub fn transform_expr(&mut self, expr: &mut ScriptExpr, scope_to_use: u32) -> (r: bool)
        requires
            exists|n: nat| chain_ends(old(self).template_scopes@, scope_to_use as int, n),
            old(self).template_generation_mode == TemplateGenerationMode::Inline || no_aliased_props(*old(self)),
        ensures
            expr_view(*final(expr)) == rewritten(template_env(*old(self), scope_to_use), Seq::empty(), false, expr_view(*old(expr))),
            r == uses_bindings(template_env(*old(self), scope_to_use), Seq::empty(), false, expr_view(*old(expr))),
            final(self).setup_bindings == old(self).setup_bindings,
            final(self).options_api_bindings == old(self).options_api_bindings,
            final(self).template_scopes == old(self).template_scopes,
            final(self).template_generation_mode == old(self).template_generation_mode,
            final(self).components == old(self).components,
            final(self).custom_directives == old(self).custom_directives,
            forall|v: Seq<char>| #[trigger] spec_binding_type(*final(self), scope_to_use, v, template_env(*old(self), scope_to_use).fuel).0
                == spec_binding_type(*old(self), scope_to_use, v, template_env(*old(self), scope_to_use).fuel).0,
            old(self).template_generation_mode != TemplateGenerationMode::Inline ==> no_aliased_props(*final(self)),
    {
        let is_inline = self.template_generation_mode == TemplateGenerationMode::Inline;
        let mut state = IdentTransformState {
            local_vars: Vec::new(),
            current_scope: scope_to_use,
            is_inline,
            is_in_destructure_assign: false,
            is_in_assign_target: false,
            is_v_model_transform: false,
            has_update_expr: false,
            has_js_bindings: false,
        };
        assert(names_view(state.local_vars@) =~= Seq::empty());
        let ghost n = choose|n: nat| chain_ends(self.template_scopes@, scope_to_use as int, n);
        assert(chain_ends(self.template_scopes@, state.current_scope as int, n));
        let ghost h0 = *self;
        let r = state.transform_js_expr(self, expr);
        proof {
            let f = template_env(h0, scope_to_use).fuel;
            assert(chain_ends(h0.template_scopes@, scope_to_use as int, f));
            assert forall|v: Seq<char>| #[trigger] spec_binding_type(*self, scope_to_use, v, f).0
                == spec_binding_type(h0, scope_to_use, v, f).0 by {
                assert(chain_ends(h0.template_scopes@, state.current_scope as int, f));
            }
        }
        r
    }
}

/// Two environments that look every name up the same way.
pub open spec fn same_lookups(env1: RewriteEnv, env2: RewriteEnv) -> bool {
    &&& env1.scope == env2.scope
    &&& env1.inline == env2.inline
    &&& env1.v_model == env2.v_model
    &&& env1.fuel == env2.fuel
    &&& forall|v: Seq<char>| #[trigger] spec_binding_type(env1.h, env1.scope, v, env1.fuel).0
        == spec_binding_type(env2.h, env2.scope, v, env2.fuel).0
}

/// The rewriting depends on the bindings only through what their lookups find.
pub proof fn lemma_rewrite_same_lookups(env1: RewriteEnv, env2: RewriteEnv, locals: Seq<Seq<char>>, in_target: bool, e: ExprV)
    requires
        same_lookups(env1, env2),
    ensures
        rewritten(env1, locals, in_target, e) == rewritten(env2, locals, in_target, e),
        uses_bindings(env1, locals, in_target, e) == uses_bindings(env2, locals, in_target, e),
    decreases e, 0int,
{
    match e {
        ExprV::Ident(x) => {
            assert(spec_binding_type(env1.h, env1.scope, x, env1.fuel).0 == spec_binding_type(env2.h, env2.scope, x, env2.fuel).0);
        },
        ExprV::Member(o, p) => {
            lemma_rewrite_same_lookups(env1, env2, locals, in_target, *o);
        },
        ExprV::Index(o, i) => {
            lemma_rewrite_same_lookups(env1, env2, locals, in_target, *o);
            lemma_rewrite_same_lookups(env1, env2, locals, in_target, *i);
        },
        ExprV::Call(c, args) => {
            lemma_rewrite_same_lookups(env1, env2, locals, in_target, *c);
            assert forall|k: int| 0 <= k < args.len() implies rewritten(env1, locals, in_target, args[k])
                == rewritten(env2, locals, in_target, args[k]) by {
                lemma_rewrite_same_lookups(env1, env2, locals, in_target, args[k]);
            }
            assert(rewritten(env1, locals, in_target, e)->Call_1 =~= rewritten(env2, locals, in_target, e)->Call_1);
            lemma_list_same_lookups(env1, env2, locals, in_target, args, 0);
        },
        ExprV::Arrow(ps, b) => {
            lemma_rewrite_same_lookups(env1, env2, locals + ps, in_target, *b);
        },
        ExprV::Assign(t, op, v) => {
            lemma_rewrite_same_lookups(env1, env2, locals, in_target, *v);
            lemma_rewrite_same_lookups(env1, env2, locals, true, *t);
            if let ExprV::Ident(x) = *t {
                assert(spec_binding_type(env1.h, env1.scope, x, env1.fuel).0 == spec_binding_type(env2.h, env2.scope, x, env2.fuel).0);
            }
        },
        ExprV::Update(op, prefix, a) => {
            lemma_rewrite_same_lookups(env1, env2, locals, in_target, *a);
            if let ExprV::Ident(x) = *a {
                assert(spec_binding_type(env1.h, env1.scope, x, env1.fuel).0 == spec_binding_type(env2.h, env2.scope, x, env2.fuel).0);
            }
        },
        ExprV::Object(props) => {
            assert forall|k: int| 0 <= k < props.len() implies rewritten_prop(env1, locals, in_target, props[k])
                == rewritten_prop(env2, locals, in_target, props[k]) by {
                lemma_prop_same_lookups(env1, env2, locals, in_target, props[k]);
            }
            assert(rewritten(env1, locals, in_target, e)->Object_0 =~= rewritten(env2, locals, in_target, e)->Object_0);
            lemma_props_same_lookups(env1, env2, locals, in_target, props, 0);
        },
        ExprV::Template(pieces, subs) => {
            assert forall|k: int| 0 <= k < subs.len() implies rewritten(env1, locals, in_target, subs[k])
                == rewritten(env2, locals, in_target, subs[k]) by {
                lemma_rewrite_same_lookups(env1, env2, locals, in_target, subs[k]);
            }
            assert(rewritten(env1, locals, in_target, e)->Template_1 =~= rewritten(env2, locals, in_target, e)->Template_1);
            lemma_list_same_lookups(env1, env2, locals, in_target, subs, 0);
        },
    }
}

proof fn lemma_prop_same_lookups(env1: RewriteEnv, env2: RewriteEnv, locals: Seq<Seq<char>>, in_target: bool, p: PropV)
    requires
        same_lookups(env1, env2),
    ensures
        rewritten_prop(env1, locals, in_target, p) == rewritten_prop(env2, locals, in_target, p),
        prop_uses_bindings(env1, locals, in_target, p) == prop_uses_bindings(env2, locals, in_target, p),
    decreases p, 0int,
{
    match p {
        PropV::Shorthand(x) => {
            assert(spec_binding_type(env1.h, env1.scope, x, env1.fuel).0 == spec_binding_type(env2.h, env2.scope, x, env2.fuel).0);
        },
        PropV::KeyValue(key, v) => {
            lemma_rewrite_same_lookups(env1, env2, locals, in_target, *v);
        },
        PropV::Spread(v) => {
            lemma_rewrite_same_lookups(env1, env2, locals, in_target, *v);
        },
    }
}

proof fn lemma_list_same_lookups(env1: RewriteEnv, env2: RewriteEnv, locals: Seq<Seq<char>>, in_target: bool, es: Seq<ExprV>, k: int)
    requires
        same_lookups(env1, env2),
    ensures
        list_uses_bindings(env1, locals, in_target, es, k) == list_uses_bindings(env2, locals, in_target, es, k),
    decreases es, es.len() - k,
{
    if 0 <= k < es.len() {
        lemma_rewrite_same_lookups(env1, env2, locals, in_target, es[k]);
        lemma_list_same_lookups(env1, env2, locals, in_target, es, k + 1);
    }
}

proof fn lemma_props_same_lookups(env1: RewriteEnv, env2: RewriteEnv, locals: Seq<Seq<char>>, in_target: bool, props: Seq<PropV>, k: int)
    requires
        same_lookups(env1, env2),
    ensures
        props_use_bindings(env1, locals, in_target, props, k) == props_use_bindings(env2, locals, in_target, props, k),
    decreases props, props.len() - k,
{
    if 0 <= k < props.len() {
        lemma_prop_same_lookups(env1, env2, locals, in_target, props[k]);
        lemma_props_same_lookups(env1, env2, locals, in_target, props, k + 1);
    }
}

/// The argument of a `v-model`.
pub enum VModelArg {
    /// `v-model:name`
    Static(String),
    /// `v-model:[expression]`
    Dynamic(ScriptExpr),
}

/// A `v-model` directive: its argument, its value, and the update handler that
/// the transform builds.
pub struct VModelDirective {
    pub argument: Option<VModelArg>,
    pub value: ScriptExpr,
    pub update_handler: Option<ScriptExpr>,
}

/// Whether an expression can be assigned to as it stands.
pub open spec fn is_assign_target(e: ExprV) -> bool {
    e is Ident || e is Member || e is Index
}

/// The environment of the update handler of a `v-model`.
pub open spec fn v_model_env(h: BindingsHelper, scope: u32) -> RewriteEnv {
    RewriteEnv { v_model: true, ..template_env(h, scope) }
}

/// The update handler of a `v-model` of `value`: `$event => value = $event`.
pub open spec fn update_handler_of(value: ExprV) -> ExprV {
    ExprV::Arrow(seq!["$event"@], Box::new(ExprV::Assign(Box::new(value), "="@, Box::new(ExprV::Ident("$event"@)))))
}

impl BindingsHelper {
    /// Transforms a `v-model`: its value, when it can be assigned to, gives the
    /// update handler `$event => value = $event`, rewritten as a `v-model`
    /// handler (see [`rewritten`]); the value is rewritten, and so is a dynamic
    /// argument, which makes the props full (`FULL_PROPS`); a static argument, or
    /// `modelValue` without one, is a prop that changes (`PROPS`). A value that
    /// cannot be assigned to leaves everything as it is.
    pub fn transform_v_model(&mut self, v_model: &mut VModelDirective, scope_to_use: u32, flags: &mut u32, props: &mut Vec<String>)
        requires
            exists|n: nat| chain_ends(old(self).template_scopes@, scope_to_use as int, n),
            old(self).template_generation_mode == TemplateGenerationMode::Inline || no_aliased_props(*old(self)),
        ensures
            !is_assign_target(expr_view(old(v_model).value)) ==> {
                &&& expr_view(final(v_model).value) == expr_view(old(v_model).value)
                &&& final(v_model).update_handler == old(v_model).update_handler
                &&& final(v_model).argument == old(v_model).argument
                &&& *final(flags) == *old(flags)
                &&& final(props)@ == old(props)@
            },
            is_assign_target(expr_view(old(v_model).value)) ==> {
                let env = template_env(*old(self), scope_to_use);
                &&& final(v_model).update_handler matches Some(h) && expr_view(h) == rewritten(v_model_env(*old(self), scope_to_use),
                    Seq::empty(), false, update_handler_of(expr_view(old(v_model).value)))
                &&& expr_view(final(v_model).value) == rewritten(env, Seq::empty(), false, expr_view(old(v_model).value))
                &&& match old(v_model).argument {
                    Some(VModelArg::Dynamic(a0)) => final(v_model).argument matches Some(VModelArg::Dynamic(a1))
                        && expr_view(a1) == rewritten(env, Seq::empty(), false, expr_view(a0))
                        && *final(flags) == *old(flags) | PATCH_FULL_PROPS && final(props)@ == old(props)@,
                    Some(VModelArg::Static(name)) => final(v_model).argument matches Some(VModelArg::Static(n1)) && n1@ == name@
                        && *final(flags) == *old(flags) | PATCH_PROPS && final(props)@.len() == old(props)@.len() + 1
                        && final(props)@.take(old(props)@.len() as int) == old(props)@ && final(props)@.last()@ == name@,
                    None => final(v_model).argument is None
                        && *final(flags) == *old(flags) | PATCH_PROPS && final(props)@.len() == old(props)@.len() + 1
                        && final(props)@.take(old(props)@.len() as int) == old(props)@ && final(props)@.last()@ == "modelValue"@,
                }
            },
            final(self).setup_bindings == old(self).setup_bindings,
            final(self).options_api_bindings == old(self).options_api_bindings,
            final(self).template_scopes == old(self).template_scopes,
            final(self).template_generation_mode == old(self).template_generation_mode,
            final(self).components == old(self).components,
            final(self).custom_directives == old(self).custom_directives,
            forall|v: Seq<char>| #[trigger] spec_binding_type(*final(self), scope_to_use, v, template_env(*old(self), scope_to_use).fuel).0
                == spec_binding_type(*old(self), scope_to_use, v, template_env(*old(self), scope_to_use).fuel).0,
            old(self).template_generation_mode != TemplateGenerationMode::Inline ==> no_aliased_props(*final(self)),
    {
        // 0. The value must be something that can be assigned to
        let is_target = match &v_model.value {
            ScriptExpr::Ident(_) | ScriptExpr::Member(_, _) | ScriptExpr::Index(_, _) => true,
            _ => false,
        };
        if !is_target {
            return;
        }
        let ghost h0 = *self;
        let ghost f = template_env(h0, scope_to_use).fuel;
        let ghost n0 = choose|n: nat| chain_ends(self.template_scopes@, scope_to_use as int, n);

        // 1. The handler `$event => value = $event`
        let target = copy_expr(&v_model.value);
        let params = vec![to_owned_string("$event")];
        assert(names_view(params@) =~= seq!["$event"@]);
        let mut handler = ScriptExpr::Arrow(params, Box::new(ScriptExpr::Assign(
            Box::new(target), to_owned_string("="), Box::new(ScriptExpr::Ident(to_owned_string("$event"))))));
        assert(expr_view(handler) == update_handler_of(expr_view(v_model.value))) by {
            reveal_with_fuel(expr_view, 3);
        }

        // 2. Rewritten as a `v-model` handler
        let is_inline = self.template_generation_mode == TemplateGenerationMode::Inline;
        let mut state = IdentTransformState {
            local_vars: Vec::new(),
            current_scope: scope_to_use,
            is_inline,
            is_in_destructure_assign: false,
            is_in_assign_target: false,
            is_v_model_transform: true,
            has_update_expr: false,
            has_js_bindings: false,
        };
        assert(names_view(state.local_vars@) =~= Seq::empty());
        assert(chain_ends(self.template_scopes@, state.current_scope as int, n0));
        let ghost st0 = state;
        assert(env_of(st0, h0) == v_model_env(h0, scope_to_use));
        state.transform_js_expr(self, &mut handler);
        v_model.update_handler = Some(handler);

        // 3. The value
        let ghost h1 = *self;
        proof {
            assert(chain_ends(h0.template_scopes@, scope_to_use as int, f));
            assert(same_lookups(template_env(h1, scope_to_use), template_env(h0, scope_to_use))) by {
                assert forall|v: Seq<char>| #[trigger] spec_binding_type(h1, scope_to_use, v, f).0
                    == spec_binding_type(h0, scope_to_use, v, f).0 by {
                    assert(chain_ends(h0.template_scopes@, state.current_scope as int, f));
                }
            }
        }
        let ghost v0 = expr_view(v_model.value);
        self.transform_expr(&mut v_model.value, scope_to_use);
        proof {
            lemma_rewrite_same_lookups(template_env(h1, scope_to_use), template_env(h0, scope_to_use), Seq::empty(), false, v0);
        }

        // 4. The argument
        let ghost h2 = *self;
        let arg = v_model.argument.take();
        match arg {
            Some(VModelArg::Dynamic(mut a)) => {
                proof {
                    assert(same_lookups(template_env(h2, scope_to_use), template_env(h0, scope_to_use))) by {
                        assert forall|v: Seq<char>| #[trigger] spec_binding_type(h2, scope_to_use, v, f).0
                            == spec_binding_type(h0, scope_to_use, v, f).0 by {
                            assert(spec_binding_type(h2, scope_to_use, v, f).0 == spec_binding_type(h1, scope_to_use, v, f).0);
                        }
                    }
                }
                let ghost a0 = expr_view(a);
                self.transform_expr(&mut a, scope_to_use);
                proof {
                    lemma_rewrite_same_lookups(template_env(h2, scope_to_use), template_env(h0, scope_to_use), Seq::empty(), false, a0);
                }
                v_model.argument = Some(VModelArg::Dynamic(a));
                *flags = *flags | PATCH_FULL_PROPS;
            },
            Some(VModelArg::Static(name)) => {
                *flags = *flags | PATCH_PROPS;
                props.push(name.clone());
                v_model.argument = Some(VModelArg::Static(name));
                assert(props@.take(old(props)@.len() as int) =~= old(props)@);
            },
            None => {
                *flags = *flags | PATCH_PROPS;
                props.push(to_owned_string("modelValue"));
                assert(props@.take(old(props)@.len() as int) =~= old(props)@);
            },
        }
        proof {
            assert forall|v: Seq<char>| #[trigger] spec_binding_type(*self, scope_to_use, v, f).0
                == spec_binding_type(h0, scope_to_use, v, f).0 by {
                assert(spec_binding_type(h2, scope_to_use, v, f).0 == spec_binding_type(h1, scope_to_use, v, f).0);
                assert(spec_binding_type(h1, scope_to_use, v, f).0 == spec_binding_type(h0, scope_to_use, v, f).0);
            }
        }
    }
}

} // verus!
