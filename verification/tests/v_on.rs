use fervid::transform::v_on::{static_event_key, 
    camelcase_with_word_groups, eq_ignore_ascii_case, is_event_option_modifier, is_keyboard_event,
    is_non_key_modifier, maybe_key_modifier, transform_v_on_static_event,
};

#[test]
fn camelcase_with_word_groups_works() {
    // Only lowercase gets sent to this function
    assert_eq!(camelcase_with_word_groups("update:model-value"), "onUpdate:modelValue");
    assert_eq!(camelcase_with_word_groups("update!model-value"), "onUpdate!modelValue");
    assert_eq!(camelcase_with_word_groups("update!!model-value"), "onUpdate!!modelValue");
    assert_eq!(camelcase_with_word_groups("update-model-value"), "onUpdateModelValue");
}

fn static_event(from: &str) -> String {
    let mut event = from.to_string();
    transform_v_on_static_event(&mut event);
    event
}

#[test]
fn it_transforms_static_event() {
    assert_eq!(static_event("update:model-value"), "onUpdate:modelValue");
    assert_eq!(static_event("update:modelValue"), "on:update:modelValue");
    assert_eq!(static_event("vue:update"), "onVnodeUpdate");
    assert_eq!(static_event("vue:updateFoo"), "onVnodeUpdateFoo");
    assert_eq!(static_event("click"), "onClick");
    assert_eq!(static_event("multi-word-event"), "onMultiWordEvent");
}

#[test]
fn camelcase_with_word_groups_edge_cases() {
    assert_eq!(camelcase_with_word_groups(""), "on");
    assert_eq!(camelcase_with_word_groups("!a"), "on!a");
    assert_eq!(camelcase_with_word_groups("a-"), "onA");
    assert_eq!(camelcase_with_word_groups("x1-y2"), "onX1Y2");
    assert_eq!(camelcase_with_word_groups("Click"), "on:Click");
}

#[test]
fn dom_modifier_kinds() {
    assert!(is_event_option_modifier("passive"));
    assert!(is_event_option_modifier("once"));
    assert!(is_event_option_modifier("capture"));
    assert!(!is_event_option_modifier("stop"));
    for m in ["stop", "prevent", "self", "ctrl", "shift", "alt", "meta", "exact", "middle"] {
        assert!(is_non_key_modifier(m));
    }
    assert!(!is_non_key_modifier("left"));
    assert!(maybe_key_modifier("left"));
    assert!(maybe_key_modifier("right"));
    assert!(!maybe_key_modifier("middle"));
}

#[test]
fn keyboard_events_ignore_ascii_case() {
    assert!(is_keyboard_event("onKeyUp"));
    assert!(is_keyboard_event("onkeydown"));
    assert!(is_keyboard_event("ONKEYPRESS"));
    assert!(!is_keyboard_event("onClick"));
    assert!(eq_ignore_ascii_case("AbC", "aBc"));
    assert!(!eq_ignore_ascii_case("abc", "abcd"));
}

#[test]
fn static_event_keys_of_elements_and_components() {
    for (event, expected) in [("click", "onClick"), ("foo-bar", "onFooBar")] {
        assert_eq!(static_event_key(true, event, false), (expected.to_string(), false));
    }
    assert_eq!(static_event_key(true, "Foo", false).0, "on:Foo");
    assert_eq!(static_event_key(false, "Foo", false).0, "onFoo");
    assert_eq!(static_event_key(true, "update:modelValue", false).0, "on:update:modelValue");
    assert_eq!(static_event_key(false, "update:modelValue", false).0, "onUpdate:modelValue");
}

#[test]
fn static_event_keys_of_vnode_hooks() {
    for (event, expected) in [("vue:mounted", "onVnodeMounted"), ("vue:before-update", "onVnodeBeforeUpdate")] {
        assert_eq!(static_event_key(true, event, false), (expected.to_string(), false));
    }
    // The raw `vnode-` name still works, but is reported outside production
    assert_eq!(static_event_key(true, "vnode-mounted", false), ("onVnodeMounted".to_string(), true));
    assert_eq!(static_event_key(true, "vnode-mounted", true), ("onVnodeMounted".to_string(), false));
}
