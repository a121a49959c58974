use fervid::transform::context::TransformSfcContext;
use fervid::transform::v_slot::{build_slots, DynamicSlot, SlotChild, SlotError, SlotFlag, SlotName, SlotSource, VSlot};

fn template(name: Option<SlotName>, v_if: Option<&str>, v_else_if: Option<&str>, v_else: bool, has_v_for: bool) -> SlotChild {
    SlotChild::Element {
        is_template: true,
        v_slot: Some(VSlot { name, props: None }),
        v_if: v_if.map(|s| s.to_string()),
        v_else_if: v_else_if.map(|s| s.to_string()),
        v_else,
        has_v_for,
        forwards_slots: false,
    }
}

fn named(n: &str) -> SlotChild {
    template(Some(SlotName::Static(n.to_string())), None, None, false, false)
}

fn div() -> SlotChild {
    SlotChild::Element { is_template: false, v_slot: None, v_if: None, v_else_if: None, v_else: false, has_v_for: false, forwards_slots: false }
}

fn name_of(n: &SlotName) -> &str {
    match n {
        SlotName::Static(s) | SlotName::Literal(s) | SlotName::Dynamic(s) => s.as_str(),
    }
}

#[test]
fn plain_children_make_the_default_slot() {
    let ctx = TransformSfcContext::anonymous();
    let children = vec![div(), SlotChild::Comment, SlotChild::Text { is_whitespace: false }];
    let slots = build_slots(&children, None, &ctx);
    assert_eq!(1, slots.slots.len());
    assert_eq!("default", name_of(&slots.slots[0].name));
    assert!(matches!(&slots.slots[0].source, SlotSource::ImplicitDefault(v) if *v == vec![0, 2]));
    assert_eq!(SlotFlag::Stable, slots.slot_flag);
    assert!(slots.errors.is_empty());
}

#[test]
fn named_template_slots_and_duplicates() {
    let ctx = TransformSfcContext::anonymous();
    let children = vec![named("header"), SlotChild::Text { is_whitespace: true }, named("header"), named("footer")];
    let slots = build_slots(&children, None, &ctx);
    assert_eq!(2, slots.slots.len());
    assert_eq!("header", name_of(&slots.slots[0].name));
    assert!(matches!(slots.slots[0].source, SlotSource::TemplateChildren(0)));
    assert_eq!("footer", name_of(&slots.slots[1].name));
    assert_eq!(vec![(SlotError::DuplicateSlotNames, 2)], slots.errors);
    assert!(!slots.has_dynamic_slots);
}

#[test]
fn extraneous_children_next_to_a_named_default_slot() {
    let ctx = TransformSfcContext::anonymous();
    let children = vec![named("default"), div()];
    let slots = build_slots(&children, None, &ctx);
    assert_eq!(1, slots.slots.len());
    assert_eq!(vec![(SlotError::ExtraneousDefaultSlotChildren, 1)], slots.errors);
}

#[test]
fn conditional_slots_are_dynamic() {
    let ctx = TransformSfcContext::anonymous();
    let children = vec![
        template(Some(SlotName::Static("a".to_string())), Some("ok"), None, false, false),
        SlotChild::Comment,
        template(Some(SlotName::Static("b".to_string())), None, Some("other"), false, false),
        template(Some(SlotName::Static("c".to_string())), None, None, true, false),
        template(Some(SlotName::Static("d".to_string())), None, None, false, true),
    ];
    let slots = build_slots(&children, None, &ctx);
    assert!(slots.has_dynamic_slots);
    assert_eq!(SlotFlag::Dynamic, slots.slot_flag);
    assert_eq!(2, slots.dynamic_slots.len());
    match &slots.dynamic_slots[0] {
        DynamicSlot::Conditional { if_slot, else_if_slots, else_slot } => {
            assert_eq!("ok", if_slot.condition);
            assert_eq!(Some(0), if_slot.slot.key);
            assert_eq!(1, else_if_slots.len());
            assert_eq!(Some(1), else_if_slots[0].slot.key);
            assert_eq!(Some(2), else_slot.as_ref().unwrap().key);
        },
        _ => panic!("Expected a conditional slot"),
    }
    assert!(matches!(&slots.dynamic_slots[1], DynamicSlot::RenderList { slot_template_index: 4, .. }));
    assert!(slots.errors.is_empty());
}

#[test]
fn else_without_if_is_an_error() {
    let ctx = TransformSfcContext::anonymous();
    let children = vec![template(None, None, None, true, false)];
    let slots = build_slots(&children, None, &ctx);
    assert_eq!(vec![(SlotError::ElseNoAdjacentIf, 0)], slots.errors);
}

#[test]
fn slot_on_the_component_and_templates_is_mixed_usage() {
    let ctx = TransformSfcContext::anonymous();
    let on = VSlot { name: None, props: Some("{ item }".to_string()) };
    let children = vec![div(), named("x"), named("y")];
    let slots = build_slots(&children, Some(&on), &ctx);
    assert_eq!(1, slots.slots.len());
    assert!(matches!(&slots.slots[0].source, SlotSource::ImplicitDefault(v) if *v == vec![0, 1, 2]));
    assert_eq!(Some("{ item }".to_string()), slots.slots[0].props);
    assert_eq!(vec![(SlotError::MixedSlotUsage, 1)], slots.errors);
}

#[test]
fn forwarded_slots_flag() {
    let ctx = TransformSfcContext::anonymous();
    let children = vec![SlotChild::Other { forwards_slots: true }];
    let slots = build_slots(&children, None, &ctx);
    assert_eq!(SlotFlag::Forwarded, slots.slot_flag);
}
