use fervid::transform::context::TransformSfcContext;
use fervid::transform::element::{
    post_transform_element_node, BuiltinKind, ElementSummary, FirstChild, PropsSummary, VNodeChildren, VNodeTagKind,
    PATCH_DYNAMIC_SLOTS, PATCH_NEED_HYDRATION, PATCH_TEXT,
};
use fervid::transform::v_slot::{SlotChild, SlotName, VSlot};

fn el(is_component: bool, tag: &str, children: Vec<SlotChild>, first: Option<FirstChild>) -> ElementSummary {
    ElementSummary { is_component, tag_name: tag.to_string(), children, first_child: first }
}

fn dynamic_slot() -> SlotChild {
    SlotChild::Element {
        is_template: true,
        v_slot: Some(VSlot { name: Some(SlotName::Dynamic("name".to_string())), props: None }),
        v_if: None,
        v_else_if: None,
        v_else: false,
        has_v_for: false,
        forwards_slots: false,
    }
}

#[test]
fn svg_is_a_block_and_text_child_is_used_directly() {
    let ctx = TransformSfcContext::anonymous();
    let e = el(false, "svg", vec![SlotChild::Other { forwards_slots: false }], Some(FirstChild::Interpolation { patch_flag: true }));
    let plan = post_transform_element_node(&e, VNodeTagKind::Other, None, None, &ctx, false);
    assert!(plan.is_block);
    assert_eq!(PATCH_TEXT, plan.flags);
    assert!(matches!(plan.children, Some(VNodeChildren::UseFirstChildTextNode)));
    assert!(!plan.needs_patch);
}

#[test]
fn component_children_become_slots() {
    let ctx = TransformSfcContext::anonymous();
    let e = el(true, "Comp", vec![dynamic_slot()], Some(FirstChild::Other));
    let plan = post_transform_element_node(&e, VNodeTagKind::Other, None, None, &ctx, false);
    assert!(!plan.is_block);
    assert_eq!(PATCH_DYNAMIC_SLOTS, plan.flags);
    match plan.children {
        Some(VNodeChildren::Slots(s)) => assert!(s.has_dynamic_slots),
        _ => panic!("Expected slots"),
    }
}

#[test]
fn keep_alive_is_a_block_with_raw_children() {
    let ctx = TransformSfcContext::anonymous();
    let children = vec![SlotChild::Other { forwards_slots: false }, SlotChild::Other { forwards_slots: false }];
    let e = el(true, "KeepAlive", children, Some(FirstChild::Other));
    let plan = post_transform_element_node(&e, VNodeTagKind::Builtin(BuiltinKind::KeepAlive), None, None, &ctx, false);
    assert!(plan.is_block);
    assert_eq!(PATCH_DYNAMIC_SLOTS, plan.flags);
    assert!(plan.keep_alive_invalid_children);
    assert!(matches!(plan.children, Some(VNodeChildren::UseElementChildren)));
    let plan = post_transform_element_node(&e, VNodeTagKind::Builtin(BuiltinKind::KeepAlive), None, None, &ctx, true);
    assert!(!plan.keep_alive_invalid_children);
}

#[test]
fn need_patch_only_without_other_flags() {
    let ctx = TransformSfcContext::anonymous();
    let e = el(false, "div", vec![], None);
    let props = PropsSummary { should_use_block: false, flags: PATCH_NEED_HYDRATION, needs_patch: true, is_block_required: true };
    let plan = post_transform_element_node(&e, VNodeTagKind::Other, Some(props), None, &ctx, false);
    assert!(plan.needs_patch);
    assert!(plan.is_block_required);
    assert!(plan.children.is_none());
    let props = PropsSummary { flags: 8, ..props };
    let plan = post_transform_element_node(&e, VNodeTagKind::Other, Some(props), None, &ctx, false);
    assert!(!plan.needs_patch);
    assert_eq!(8, plan.flags);
}

#[test]
fn teleport_keeps_its_children() {
    let ctx = TransformSfcContext::anonymous();
    let e = el(true, "Teleport", vec![SlotChild::Text { is_whitespace: false }], Some(FirstChild::Text));
    let plan = post_transform_element_node(&e, VNodeTagKind::Builtin(BuiltinKind::Teleport), None, None, &ctx, false);
    assert!(plan.is_block);
    assert!(matches!(plan.children, Some(VNodeChildren::UseElementChildren)));
}
