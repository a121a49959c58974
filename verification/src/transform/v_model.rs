//! The core `v-model` rules: which targets it refuses, and the names of the
//! properties it gives an element or component.
use vstd::prelude::*;

use crate::analyzer::scope::chain_ends;
use crate::case::{spec_camel_case, to_camel_case};
use crate::text::{push_str, to_owned_string};
use crate::transform::context::{BindingTypes, BindingsHelper, TemplateGenerationMode};
use crate::transform::expr_transform::spec_binding_type;
use crate::transform::resolutions::{cache_after, is_inline};
use crate::transform::expr_transform::cache_view;

verus! {

/// Why a `v-model` target is refused.
#[derive(Clone, Copy, PartialEq, Eq, Structural, Debug)]
pub enum VModelUsageError {
    /// A prop cannot be assigned to
    OnProps,
    /// Nor a constant
    OnConst,
    /// Nor a variable of `v-for` or `v-slot`
    OnScopeVariable,
    /// Outside inline mode a setup binding can only be assigned through a member
    MalformedExpression,
}

/// What is wrong with a `v-model` whose value is the identifier `ident` (or is
/// not an identifier, when `ident` is `None`), by the type of the binding.
pub open spec fn spec_usage_error(t: BindingTypes, is_inline: bool, is_member_expression: bool) -> Option<VModelUsageError> {
    match t {
        BindingTypes::Props | BindingTypes::PropsAliased => Some(VModelUsageError::OnProps),
        BindingTypes::LiteralConst | BindingTypes::SetupConst => Some(VModelUsageError::OnConst),
        BindingTypes::TemplateLocal => Some(VModelUsageError::OnScopeVariable),
        BindingTypes::SetupLet | BindingTypes::SetupRef | BindingTypes::SetupMaybeRef | BindingTypes::Imported => {
            if !is_inline && !is_member_expression {
                Some(VModelUsageError::MalformedExpression)
            } else {
                None
            }
        },
        _ => None,
    }
}

/// Checks the target of a `v-model` in the template scope `scope`: only a value
/// that is a lone identifier is looked up (`ident`);
/// `is_member_expression` tells whether the value is a member expression.
pub fn v_model_usage_error(bindings_helper: &mut BindingsHelper, scope: u32, ident: Option<&str>, is_member_expression: bool) -> (r: Option<VModelUsageError>)
    requires
        exists|n: nat| chain_ends(old(bindings_helper).template_scopes@, scope as int, n),
    ensures
        forall|n: nat| chain_ends(old(bindings_helper).template_scopes@, scope as int, n) ==> match ident {
            Some(v) => r == spec_usage_error(spec_binding_type(*old(bindings_helper), scope, v@, n).0,
                is_inline(*old(bindings_helper)), is_member_expression)
                && cache_view(final(bindings_helper).used_bindings@) == cache_after(*old(bindings_helper), scope, v@, n),
            None => r is None && final(bindings_helper).used_bindings == old(bindings_helper).used_bindings,
        },
        final(bindings_helper).setup_bindings == old(bindings_helper).setup_bindings,
        final(bindings_helper).options_api_bindings == old(bindings_helper).options_api_bindings,
        final(bindings_helper).template_scopes == old(bindings_helper).template_scopes,
        final(bindings_helper).template_generation_mode == old(bindings_helper).template_generation_mode,
        final(bindings_helper).components == old(bindings_helper).components,
        final(bindings_helper).custom_directives == old(bindings_helper).custom_directives,
{
    let Some(v) = ident else { return None };
    let binding_type = bindings_helper.get_var_binding_type(scope, v);
    match binding_type {
        BindingTypes::Props | BindingTypes::PropsAliased => Some(VModelUsageError::OnProps),
        BindingTypes::LiteralConst | BindingTypes::SetupConst => Some(VModelUsageError::OnConst),
        BindingTypes::TemplateLocal => Some(VModelUsageError::OnScopeVariable),
        BindingTypes::SetupLet | BindingTypes::SetupRef | BindingTypes::SetupMaybeRef | BindingTypes::Imported => {
            let maybe_ref = bindings_helper.template_generation_mode == TemplateGenerationMode::Inline;
            if !maybe_ref && !is_member_expression {
                Some(VModelUsageError::MalformedExpression)
            } else {
                None
            }
        },
        _ => None,
    }
}

/// The keys of the properties of a `v-model` with a static argument (or none):
/// the value, the update handler and the modifiers.
pub struct ModelKeys {
    pub model_value: String,
    pub update_event: String,
    pub modifiers: String,
}

/// `modelValue`, `onUpdate:modelValue` and `modelModifiers` without an argument;
/// `arg`, `onUpdate:` with the argument in camelCase, and `argModifiers` with one.
pub open spec fn spec_model_keys(argument: Option<Seq<char>>) -> (Seq<char>, Seq<char>, Seq<char>) {
    match argument {
        Some(a) => (a, "onUpdate:"@ + spec_camel_case(a), a + "Modifiers"@),
        None => ("modelValue"@, "onUpdate:modelValue"@, "modelModifiers"@),
    }
}

pub fn static_model_keys(argument: Option<&str>) -> (r: ModelKeys)
    ensures
        (r.model_value@, r.update_event@, r.modifiers@) == spec_model_keys(match argument {
            Some(a) => Some(a@),
            None => None,
        }),
{
    match argument {
        Some(a) => {
            let mut update_event = to_owned_string("onUpdate:");
            to_camel_case(a, &mut update_event);
            let mut modifiers = to_owned_string(a);
            push_str(&mut modifiers, "Modifiers");
            ModelKeys { model_value: to_owned_string(a), update_event, modifiers }
        },
        None => ModelKeys {
            model_value: to_owned_string("modelValue"),
            update_event: to_owned_string("onUpdate:modelValue"),
            modifiers: to_owned_string("modelModifiers"),
        },
    }
}

} // verus!
