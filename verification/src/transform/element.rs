//! What an element or component's vnode call becomes once its props and children
//! are known: whether it is a block, its patch flag, and how its children are passed.
use vstd::prelude::*;

use crate::text::str_eq;
use crate::transform::context::TransformSfcContext;
use crate::transform::v_slot::{build_slots, opt_vslot, slots_match, spec_build_slots, SlotChild, Slots, VSlot};

verus! {

/// `TEXT`: the only child is text that changes.
pub const PATCH_TEXT: u32 = 1;

/// `NEED_HYDRATION`: event listeners are needed during hydration.
pub const PATCH_NEED_HYDRATION: u32 = 32;

/// `DYNAMIC_SLOTS`: the slots change between renders.
pub const PATCH_DYNAMIC_SLOTS: u32 = 1024;

/// The built-in components whose vnode calls are compiled in their own way.
#[derive(Clone, Copy, PartialEq, Eq, Structural, Debug)]
pub enum BuiltinKind {
    Teleport,
    Suspense,
    KeepAlive,
    BaseTransition,
}

/// The tag of a vnode call: `resolveDynamicComponent(..)`, a built-in component,
/// or any other expression (a tag name string, a resolved component).
#[derive(Clone, Copy, PartialEq, Eq, Structural, Debug)]
pub enum VNodeTagKind {
    DynamicComponent,
    Builtin(BuiltinKind),
    Other,
}

/// What building the props of the element gave.
#[derive(Clone, Copy, PartialEq, Eq, Structural, Debug)]
pub struct PropsSummary {
    pub should_use_block: bool,
    /// The patch flags, as a bit set
    pub flags: u32,
    pub needs_patch: bool,
    pub is_block_required: bool,
}

/// The first child of an element, as far as its vnode call goes.
#[derive(Clone, Copy, PartialEq, Eq, Structural, Debug)]
pub enum FirstChild {
    /// `{{ expression }}`, with whether it gives the `TEXT` patch flag
    Interpolation { patch_flag: bool },
    Text,
    Other,
}

/// An element or component, as far as its vnode call goes.
pub struct ElementSummary {
    pub is_component: bool,
    pub tag_name: String,
    /// Its children, as slot building reads them
    pub children: Vec<SlotChild>,
    /// What its first child is, when it has any
    pub first_child: Option<FirstChild>,
}

/// How the children of a vnode call are passed.
pub enum VNodeChildren {
    /// The slots of a component
    Slots(Slots),
    /// The only child, text or interpolation, as the children
    UseFirstChildTextNode,
    UseElementChildren,
}

/// The vnode call of an element or component.
pub struct VNodeCallPlan {
    pub is_block: bool,
    pub flags: u32,
    pub needs_patch: bool,
    pub is_block_required: bool,
    pub is_component: bool,
    pub children: Option<VNodeChildren>,
    /// `<KeepAlive>` with more than one child, outside production
    pub keep_alive_invalid_children: bool,
}

/// `<svg>`, `<foreignObject>` and `<math>` are blocks so that their updates keep their namespace.
pub open spec fn is_namespace_root(tag: Seq<char>) -> bool {
    tag == "svg"@ || tag == "foreignObject"@ || tag == "math"@
}

/// Whether the vnode call starts as a block, before props and children are seen.
pub open spec fn starts_as_block(is_component: bool, tag_name: Seq<char>, tag: VNodeTagKind) -> bool {
    tag == VNodeTagKind::DynamicComponent || tag == VNodeTagKind::Builtin(BuiltinKind::Teleport) || tag
        == VNodeTagKind::Builtin(BuiltinKind::Suspense) || (!is_component && is_namespace_root(tag_name))
}

pub open spec fn props_or_default(props: Option<PropsSummary>) -> PropsSummary {
    match props {
        Some(p) => p,
        None => PropsSummary { should_use_block: false, flags: 0, needs_patch: false, is_block_required: false },
    }
}

/// Children are built as slots for components other than `<Teleport>` and `<KeepAlive>`.
pub open spec fn builds_slots(is_component: bool, tag: VNodeTagKind) -> bool {
    is_component && tag != VNodeTagKind::Builtin(BuiltinKind::Teleport) && tag != VNodeTagKind::Builtin(
        BuiltinKind::KeepAlive,
    )
}

pub enum ChildrenKind {
    Slots,
    UseFirstChildTextNode,
    UseElementChildren,
}

pub open spec fn children_kind_of(c: Option<VNodeChildren>) -> Option<ChildrenKind> {
    match c {
        Some(VNodeChildren::Slots(_)) => Some(ChildrenKind::Slots),
        Some(VNodeChildren::UseFirstChildTextNode) => Some(ChildrenKind::UseFirstChildTextNode),
        Some(VNodeChildren::UseElementChildren) => Some(ChildrenKind::UseElementChildren),
        None => None,
    }
}

/// How the children are passed: none without children; slots for components
/// (see [`builds_slots`]); the only child itself when it is text or an
/// interpolation (but not under `<Teleport>`); the children otherwise.
pub open spec fn spec_children_kind(n: nat, first: Option<FirstChild>, is_component: bool, tag: VNodeTagKind) -> Option<ChildrenKind> {
    if n == 0 {
        None
    } else if builds_slots(is_component, tag) {
        Some(ChildrenKind::Slots)
    } else if n == 1 && tag != VNodeTagKind::Builtin(BuiltinKind::Teleport) && (first matches Some(
        FirstChild::Interpolation { .. },
    ) || first == Some(FirstChild::Text)) {
        Some(ChildrenKind::UseFirstChildTextNode)
    } else {
        Some(ChildrenKind::UseElementChildren)
    }
}

/// The patch flags: those of the props, `DYNAMIC_SLOTS` for a `<KeepAlive>` with
/// children and for dynamic slots, `TEXT` for a lone interpolation that asks for it.
pub open spec fn spec_flags(
    props_flags: u32,
    n: nat,
    first: Option<FirstChild>,
    is_component: bool,
    tag: VNodeTagKind,
    has_dynamic_slots: bool,
) -> u32 {
    let f1 = if n > 0 && tag == VNodeTagKind::Builtin(BuiltinKind::KeepAlive) {
        props_flags | PATCH_DYNAMIC_SLOTS
    } else {
        props_flags
    };
    if n > 0 && builds_slots(is_component, tag) {
        if has_dynamic_slots {
            f1 | PATCH_DYNAMIC_SLOTS
        } else {
            f1
        }
    } else if n == 1 && tag != VNodeTagKind::Builtin(BuiltinKind::Teleport) && first == Some(
        FirstChild::Interpolation { patch_flag: true },
    ) {
        f1 | PATCH_TEXT
    } else {
        f1
    }
}

fn is_namespace_root_exec(tag: &str) -> (r: bool)
    ensures
        r == is_namespace_root(tag@),
{
    str_eq(tag, "svg") || str_eq(tag, "foreignObject") || str_eq(tag, "math")
}

/// The vnode call of an element or component, from the kind of its tag, what
/// building its props gave (`None` when it has neither attributes nor directives)
/// and its children, built as slots (with `on_component`, its own `v-slot`) where
/// a component takes them so.
pub fn post_transform_element_node(
    el: &ElementSummary,
    tag: VNodeTagKind,
    props: Option<PropsSummary>,
    on_component: Option<&VSlot>,
    ctx: &TransformSfcContext,
    is_prod: bool,
) -> (r: VNodeCallPlan)
    requires
        el.first_child is Some <==> el.children@.len() > 0,
    ensures
        ({
            let p = props_or_default(props);
            let n = el.children@.len();
            let slots = spec_build_slots(
                el.children@,
                opt_vslot(on_component),
                ctx.directive_scopes.v_slot > 0 || ctx.directive_scopes.v_for > 0,
            );
            let has_dynamic_slots = builds_slots(el.is_component, tag) && n > 0 && slots.has_dynamic;
            let flags = spec_flags(p.flags, n, el.first_child, el.is_component, tag, has_dynamic_slots);
            &&& r.is_component == el.is_component
            &&& r.is_block == (starts_as_block(el.is_component, el.tag_name@, tag) || p.should_use_block || (n > 0
                && tag == VNodeTagKind::Builtin(BuiltinKind::KeepAlive)))
            &&& r.flags == flags
            &&& r.needs_patch == (p.needs_patch && (flags == 0 || flags == PATCH_NEED_HYDRATION))
            &&& r.is_block_required == p.is_block_required
            &&& children_kind_of(r.children) == spec_children_kind(n, el.first_child, el.is_component, tag)
            &&& (r.children matches Some(VNodeChildren::Slots(s)) ==> slots_match(s, slots, el.children@))
            &&& r.keep_alive_invalid_children == (tag == VNodeTagKind::Builtin(BuiltinKind::KeepAlive) && !is_prod
                && n > 1)
        }),
        r.needs_patch ==> r.flags == 0 || r.flags == PATCH_NEED_HYDRATION,
        r.children is None <==> el.children@.len() == 0,
        props is None && el.children@.len() == 0 ==> r.flags == 0 && !r.needs_patch && !r.is_block_required,
{
    let is_component = el.is_component;
    let mut should_use_block = tag == VNodeTagKind::DynamicComponent || tag == VNodeTagKind::Builtin(BuiltinKind::Teleport)
        || tag == VNodeTagKind::Builtin(BuiltinKind::Suspense)
        // <svg> and <foreignObject> must be forced into blocks so that block
        // updates inside get proper isSVG flag at runtime.
        || (!is_component && is_namespace_root_exec(el.tag_name.as_str()));

    let mut flags: u32 = 0;
    let mut needs_patch = false;
    let mut is_block_required = false;

    // Props
    if let Some(p) = props {
        should_use_block = should_use_block || p.should_use_block;
        flags = p.flags;
        needs_patch = p.needs_patch;
        is_block_required = p.is_block_required;
    }

    let mut children: Option<VNodeChildren> = None;
    let mut keep_alive_invalid_children = false;
    let n = el.children.len();

    // Children
    if n > 0 {
        if tag == VNodeTagKind::Builtin(BuiltinKind::KeepAlive) {
            // KeepAlive is compiled with raw children: it is a block, and always updated
            should_use_block = true;
            flags = flags | PATCH_DYNAMIC_SLOTS;
            if !is_prod && n > 1 {
                keep_alive_invalid_children = true;
            }
        }

        let should_build_as_slots = is_component && tag != VNodeTagKind::Builtin(BuiltinKind::Teleport) && tag
            != VNodeTagKind::Builtin(BuiltinKind::KeepAlive);

        if should_build_as_slots {
            let slots = build_slots(&el.children, on_component, ctx);
            if slots.has_dynamic_slots {
                flags = flags | PATCH_DYNAMIC_SLOTS;
            }
            children = Some(VNodeChildren::Slots(slots));
        } else if n == 1 && tag != VNodeTagKind::Builtin(BuiltinKind::Teleport) {
            let mut text_child = false;
            match el.first_child {
                Some(FirstChild::Interpolation { patch_flag }) => {
                    text_child = true;
                    if patch_flag {
                        flags = flags | PATCH_TEXT;
                    }
                },
                Some(FirstChild::Text) => {
                    text_child = true;
                },
                _ => {},
            }
            if text_child {
                children = Some(VNodeChildren::UseFirstChildTextNode);
            } else {
                children = Some(VNodeChildren::UseElementChildren);
            }
        } else {
            children = Some(VNodeChildren::UseElementChildren);
        }
    }

    // PatchFlag & dynamicPropNames
    needs_patch = needs_patch && (flags == 0 || flags == PATCH_NEED_HYDRATION);

    VNodeCallPlan {
        is_block: should_use_block,
        flags,
        needs_patch,
        is_block_required,
        is_component,
        children,
        keep_alive_invalid_children,
    }
}

} // verus!
