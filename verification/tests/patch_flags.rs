use fervid::transform::patch_flags::{analyze_patch_flag, PatchMarkers};

fn markers() -> PatchMarkers {
    PatchMarkers {
        dynamic_prop_names: vec![],
        has_class_binding: false,
        has_dynamic_keys: false,
        has_hydration_event_binding: false,
        has_ref: false,
        has_runtime_directives: false,
        has_style_binding: false,
        has_vnode_hook: false,
        should_use_block: false,
        is_block_required: false,
    }
}

#[test]
fn dynamic_keys_are_marked() {
    let mut m = markers();
    analyze_patch_flag(None, false, &mut m, false, false);
    assert!(m.has_dynamic_keys);
    assert!(m.dynamic_prop_names.is_empty());
}

#[test]
fn event_handlers_need_hydration_except_click_and_model() {
    let mut m = markers();
    analyze_patch_flag(Some("onClick"), true, &mut m, false, false);
    analyze_patch_flag(Some("onUpdate:modelValue"), true, &mut m, false, false);
    assert!(!m.has_hydration_event_binding);
    analyze_patch_flag(Some("onInput"), true, &mut m, true, false);
    assert!(!m.has_hydration_event_binding);
    analyze_patch_flag(Some("onInput"), true, &mut m, false, false);
    assert!(m.has_hydration_event_binding);
    assert!(m.dynamic_prop_names.is_empty());
}

#[test]
fn vnode_hooks_are_marked() {
    let mut m = markers();
    analyze_patch_flag(Some("onVnodeMounted"), true, &mut m, false, false);
    assert!(m.has_vnode_hook);
    assert!(!m.has_hydration_event_binding);
}

#[test]
fn changing_props_are_listed_once() {
    let mut m = markers();
    for name in ["ref", "class", "style", "key", "title", "title", "onInput"] {
        analyze_patch_flag(Some(name), false, &mut m, false, false);
    }
    assert!(m.has_ref && m.has_class_binding && m.has_style_binding);
    assert_eq!(m.dynamic_prop_names, vec!["title".to_string(), "onInput".to_string()]);

    // Components list their class and style too
    let mut m = markers();
    analyze_patch_flag(Some("class"), false, &mut m, true, false);
    analyze_patch_flag(Some("style"), false, &mut m, true, false);
    analyze_patch_flag(Some("class"), false, &mut m, true, false);
    assert_eq!(m.dynamic_prop_names, vec!["class".to_string(), "style".to_string()]);

    // Constant values change nothing
    let mut m = markers();
    analyze_patch_flag(Some("title"), true, &mut m, false, false);
    assert!(m.dynamic_prop_names.is_empty());
}
