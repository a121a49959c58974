use fervid::analyzer::scope::Scope;
use fervid::transform::context::{BindingTypes, SetupBinding, TemplateGenerationMode, TransformSfcContext};
use fervid::transform::v_model::{static_model_keys, v_model_usage_error, VModelUsageError};

#[test]
fn read_only_targets_are_refused() {
    for (value, binding_type, expected) in [
        ("prop", BindingTypes::Props, Some(VModelUsageError::OnProps)),
        ("aliased", BindingTypes::PropsAliased, Some(VModelUsageError::OnProps)),
        ("constant", BindingTypes::SetupConst, Some(VModelUsageError::OnConst)),
        ("literal", BindingTypes::LiteralConst, Some(VModelUsageError::OnConst)),
        ("reference", BindingTypes::SetupRef, Some(VModelUsageError::MalformedExpression)),
        ("reactive", BindingTypes::SetupReactiveConst, None),
    ] {
        let mut ctx = TransformSfcContext::anonymous();
        ctx.bindings_helper.setup_bindings.push(SetupBinding { sym: value.to_string(), binding_type });
        assert_eq!(v_model_usage_error(&mut ctx.bindings_helper, 0, Some(value), false), expected, "{}", value);
    }

    let mut ctx = TransformSfcContext::anonymous();
    ctx.bindings_helper.template_scopes.push(Scope { variables: vec!["item".to_string()], parent: 0 });
    assert_eq!(v_model_usage_error(&mut ctx.bindings_helper, 0, Some("item"), false), Some(VModelUsageError::OnScopeVariable));
    // Unknown variables and expressions are left to the expression transform
    assert_eq!(v_model_usage_error(&mut ctx.bindings_helper, 0, Some("model"), false), None);
    assert_eq!(v_model_usage_error(&mut ctx.bindings_helper, 0, None, false), None);
}

#[test]
fn setup_bindings_need_a_member_outside_inline_mode() {
    let mut ctx = TransformSfcContext::anonymous();
    ctx.bindings_helper.setup_bindings.push(SetupBinding { sym: "Let".to_string(), binding_type: BindingTypes::SetupLet });
    assert_eq!(v_model_usage_error(&mut ctx.bindings_helper, 0, Some("Let"), false), Some(VModelUsageError::MalformedExpression));
    assert_eq!(v_model_usage_error(&mut ctx.bindings_helper, 0, Some("Let"), true), None);
    ctx.bindings_helper.template_generation_mode = TemplateGenerationMode::Inline;
    assert_eq!(v_model_usage_error(&mut ctx.bindings_helper, 0, Some("Let"), false), None);
}

#[test]
fn model_property_keys() {
    let keys = static_model_keys(None);
    assert_eq!((keys.model_value.as_str(), keys.update_event.as_str(), keys.modifiers.as_str()), ("modelValue", "onUpdate:modelValue", "modelModifiers"));
    let keys = static_model_keys(Some("foo-value"));
    assert_eq!((keys.model_value.as_str(), keys.update_event.as_str(), keys.modifiers.as_str()), ("foo-value", "onUpdate:fooValue", "foo-valueModifiers"));
}
