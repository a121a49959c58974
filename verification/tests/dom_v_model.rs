use fervid::transform::dom_v_model::{native_v_model, ModelAttr, VModelError, VModelRuntime};

fn regular(name: &str, value: &str) -> ModelAttr {
    ModelAttr::Regular { name: name.to_string(), value: value.to_string() }
}

fn bind(name: &str) -> ModelAttr {
    ModelAttr::BindStatic(name.to_string())
}

#[test]
fn native_controls_pick_their_runtime_directive() {
    for (tag, attributes, expected) in [
        ("input", vec![], VModelRuntime::Text),
        ("input", vec![regular("type", "text")], VModelRuntime::Text),
        ("input", vec![regular("type", "radio")], VModelRuntime::Radio),
        ("input", vec![regular("type", "checkbox")], VModelRuntime::Checkbox),
        ("textarea", vec![], VModelRuntime::Text),
        ("select", vec![], VModelRuntime::Select),
    ] {
        let plan = native_v_model(tag, false, &attributes, true);
        assert_eq!(plan.runtime, Some(expected));
        assert!(plan.errors.is_empty());
    }
}

#[test]
fn bound_input_types_pick_the_dynamic_directive() {
    let plan = native_v_model("input", false, &vec![bind("type")], true);
    assert_eq!(plan.runtime, Some(VModelRuntime::Dynamic));
    assert!(plan.errors.is_empty());

    // A binding with unknown names may hold the type, unless a plain type comes later
    let plan = native_v_model("input", false, &vec![ModelAttr::BindDynamic], true);
    assert_eq!(plan.runtime, Some(VModelRuntime::Dynamic));
    let plan = native_v_model("input", false, &vec![ModelAttr::BindDynamic, regular("type", "radio")], true);
    assert_eq!(plan.runtime, Some(VModelRuntime::Radio));
    let plan = native_v_model("input", false, &vec![ModelAttr::BindDynamic, regular("type", "text")], true);
    assert_eq!(plan.runtime, Some(VModelRuntime::Dynamic));
}

#[test]
fn an_argument_on_an_element_is_reported() {
    let plan = native_v_model("input", true, &vec![], true);
    assert_eq!(plan.errors, vec![VModelError::ArgOnElement]);
    assert_eq!(plan.runtime, Some(VModelRuntime::Text));
}

#[test]
fn file_inputs_and_other_elements_are_refused() {
    let plan = native_v_model("input", false, &vec![regular("type", "file")], true);
    assert_eq!(plan.errors, vec![VModelError::OnFileInputElement]);
    assert!(plan.runtime.is_none());

    let plan = native_v_model("span", false, &vec![], true);
    assert_eq!(plan.errors, vec![VModelError::OnInvalidElement]);
    assert!(plan.runtime.is_none());
}

#[test]
fn a_bound_value_is_reported_in_development_only() {
    let attrs = vec![regular("type", "text"), bind("value")];
    assert_eq!(native_v_model("input", false, &attrs, true).errors, vec![VModelError::UnnecessaryValue]);
    assert!(native_v_model("input", false, &attrs, false).errors.is_empty());

    let attrs = vec![regular("type", "text"), regular("value", "model")];
    assert!(native_v_model("input", false, &attrs, true).errors.is_empty());

    assert_eq!(native_v_model("textarea", false, &vec![bind("value")], true).errors, vec![VModelError::UnnecessaryValue]);
    assert_eq!(native_v_model("input", false, &vec![bind("value")], true).errors, vec![VModelError::UnnecessaryValue]);
    // Radio and checkbox inputs take a value of their own
    assert!(native_v_model("input", false, &vec![regular("type", "radio"), bind("value")], true).errors.is_empty());
}
