use fervid::transform::build_props::{
    build_props_flags, PropArg, PropAttr, PropsContext, PropsError, PATCH_CLASS, PATCH_FULL_PROPS, PATCH_NEED_HYDRATION,
    PATCH_NEED_PATCH, PATCH_PROPS,
};

fn ctx() -> PropsContext {
    PropsContext { is_component: false, is_dynamic_component: false, is_component_tag: false, ssr: false, has_children: false, in_v_for: false }
}

fn bind(arg: &str, is_constant: bool) -> PropAttr {
    PropAttr::Bind { arg: Some(PropArg::Static(arg.to_string())), is_prop: false, is_constant }
}

fn on(event: &str, key: &str) -> PropAttr {
    PropAttr::On {
        event: Some(PropArg::Static(event.to_string())),
        key: Some(PropArg::Static(key.to_string())),
        has_handler: true,
        is_constant: false,
    }
}

#[test]
fn bound_class_and_props_give_their_flags() {
    let attrs = vec![bind("class", false), bind("title", false), PropAttr::Regular { name: "id".to_string(), value: "x".to_string() }];
    let (marks, flags, needs_patch) = build_props_flags(&attrs, false, 0, false, ctx());
    assert_eq!(PATCH_CLASS | PATCH_PROPS, flags);
    assert!(!needs_patch);
    assert_eq!(vec!["title".to_string()], marks.markers.dynamic_prop_names);
}

#[test]
fn object_bindings_give_full_props() {
    let attrs = vec![PropAttr::Bind { arg: None, is_prop: false, is_constant: false }, bind("title", false)];
    let (marks, flags, _) = build_props_flags(&attrs, false, 0, false, ctx());
    assert_eq!(PATCH_FULL_PROPS, flags);
    assert!(marks.markers.has_dynamic_keys);
}

#[test]
fn a_ref_alone_needs_patch() {
    let attrs = vec![PropAttr::Regular { name: "ref".to_string(), value: "el".to_string() }];
    let c = PropsContext { in_v_for: true, ..ctx() };
    let (marks, flags, needs_patch) = build_props_flags(&attrs, false, 0, false, c);
    assert!(needs_patch);
    assert_eq!(PATCH_NEED_PATCH, flags);
    assert_eq!(1, marks.ref_for_count);
}

#[test]
fn listeners_need_hydration_except_click() {
    // A handler that is not cached also changes between renders: it is a dynamic prop
    let (_, flags, _) = build_props_flags(&vec![on("input", "onInput")], false, 0, false, ctx());
    assert_eq!(PATCH_PROPS | PATCH_NEED_HYDRATION, flags);
    let (_, flags, _) = build_props_flags(&vec![on("click", "onClick")], false, 0, false, ctx());
    assert_eq!(PATCH_PROPS, flags);
    let (_, flags, _) = build_props_flags(&vec![on("input", "onInput")], false, 0, false, PropsContext { ssr: true, ..ctx() });
    assert_eq!(0, flags);
}

#[test]
fn custom_directives_and_before_update_force_blocks() {
    let c = PropsContext { has_children: true, ..ctx() };
    let (marks, flags, needs_patch) = build_props_flags(&vec![], false, 1, false, c);
    assert!(marks.markers.should_use_block && marks.markers.is_block_required);
    assert!(needs_patch);
    assert_eq!(0, flags);
    let (marks, _, _) = build_props_flags(&vec![on("vue:before-update", "onVnodeBeforeUpdate")], false, 0, false, c);
    assert!(marks.markers.should_use_block && marks.markers.is_block_required);
    assert!(marks.markers.has_vnode_hook);
}

#[test]
fn props_errors() {
    let attrs = vec![PropAttr::On { event: None, key: None, has_handler: false, is_constant: false }];
    let (marks, flags, _) = build_props_flags(&attrs, true, 0, false, ctx());
    assert_eq!(vec![(PropsError::VOnNoExpression, 0), (PropsError::VSlotMisplaced, 1)], marks.errors);
    assert_eq!(PATCH_FULL_PROPS, flags);
}

#[test]
fn key_binding_forces_a_block_and_prop_needs_hydration() {
    let attrs = vec![bind("key", false), PropAttr::Bind { arg: Some(PropArg::Static("value".to_string())), is_prop: true, is_constant: true }];
    let (marks, flags, _) = build_props_flags(&attrs, false, 0, false, ctx());
    assert!(marks.markers.should_use_block);
    assert_eq!(PATCH_NEED_HYDRATION, flags);
}
