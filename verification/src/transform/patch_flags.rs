//! What the properties of an element tell its patch flags.
use vstd::prelude::*;

use crate::analyzer::scope::{contains_str, spec_contains};
use crate::text::{str_eq, to_owned_string};
use crate::transform::resolutions::{is_on, is_reserved_prop, reserved_props, spec_is_on};
use crate::transform::v_on::{eq_ignore_ascii_case, spec_eq_ignore_ascii_case};

verus! {

/// What the properties of an element have shown so far.
pub struct PatchMarkers {
    /// The props that change, by name, each once
    pub dynamic_prop_names: Vec<String>,
    pub has_class_binding: bool,
    pub has_dynamic_keys: bool,
    pub has_hydration_event_binding: bool,
    pub has_ref: bool,
    pub has_runtime_directives: bool,
    pub has_style_binding: bool,
    pub has_vnode_hook: bool,
    pub should_use_block: bool,
    pub is_block_required: bool,
}

/// The markers after the event handler rules for a property named `name`.
pub open spec fn event_markers(m: PatchMarkers, name: Seq<char>, is_component: bool, is_dynamic_component: bool) -> PatchMarkers {
    let is_event_handler = spec_is_on(name);
    let is_reserved = reserved_props().contains(name);
    let m1 = if is_event_handler && (!is_component || is_dynamic_component)
        // omit the flag for click handlers because hydration gives click a dedicated fast path
        && !spec_eq_ignore_ascii_case(name, "onclick"@)
        // omit v-model handlers
        && name != "onUpdate:modelValue"@
        // omit onVnodeXXX hooks
        && !is_reserved {
        PatchMarkers { has_hydration_event_binding: true, ..m }
    } else {
        m
    };
    if is_event_handler && is_reserved { PatchMarkers { has_vnode_hook: true, ..m1 } } else { m1 }
}

/// The markers and dynamic prop names after a property named `name` whose value changes.
pub open spec fn value_markers(m: PatchMarkers, names: Seq<Seq<char>>, name: Seq<char>, is_component: bool) -> (PatchMarkers, Seq<Seq<char>>) {
    let (m3, names3) = if name == "ref"@ {
        (PatchMarkers { has_ref: true, ..m }, names)
    } else if name == "class"@ {
        (PatchMarkers { has_class_binding: true, ..m }, names)
    } else if name == "style"@ {
        (PatchMarkers { has_style_binding: true, ..m }, names)
    } else if name != "key"@ && !names.contains(name) {
        (m, names.push(name))
    } else {
        (m, names)
    };
    if is_component && (name == "class"@ || name == "style"@) && !names3.contains(name) {
        (m3, names3.push(name))
    } else {
        (m3, names3)
    }
}

/// The markers after a property: `key` is its name when static (none for a dynamic
/// key), and `value_is_constant` tells whether its value (for a wrapped handler,
/// the handler) is cached or constant, in which case it does not change.
pub open spec fn spec_analyze(m: PatchMarkers, names: Seq<Seq<char>>, key: Option<Seq<char>>, value_is_constant: bool, is_component: bool, is_dynamic_component: bool) -> (PatchMarkers, Seq<Seq<char>>) {
    match key {
        None => (PatchMarkers { has_dynamic_keys: true, ..m }, names),
        Some(name) => {
            let m2 = event_markers(m, name, is_component, is_dynamic_component);
            if value_is_constant {
                (m2, names)
            } else {
                value_markers(m2, names, name, is_component)
            }
        },
    }
}

pub open spec fn names_view(v: Seq<String>) -> Seq<Seq<char>> {
    v.map_values(|s: String| s@)
}

/// The flags of the markers, without the names.
pub open spec fn same_flags(a: PatchMarkers, b: PatchMarkers) -> bool {
    &&& a.has_class_binding == b.has_class_binding
    &&& a.has_dynamic_keys == b.has_dynamic_keys
    &&& a.has_hydration_event_binding == b.has_hydration_event_binding
    &&& a.has_ref == b.has_ref
    &&& a.has_runtime_directives == b.has_runtime_directives
    &&& a.has_style_binding == b.has_style_binding
    &&& a.has_vnode_hook == b.has_vnode_hook
    &&& a.should_use_block == b.should_use_block
    &&& a.is_block_required == b.is_block_required
}

/// Adds `name` to the dynamic props unless it is there.
fn push_name_once(names: &mut Vec<String>, name: &str)
    ensures
        names_view(final(names)@) == if names_view(old(names)@).contains(name@) {
            names_view(old(names)@)
        } else {
            names_view(old(names)@).push(name@)
        },
{
    proof {
        assert(spec_contains(old(names)@, name@) == names_view(old(names)@).contains(name@)) by {
            if spec_contains(old(names)@, name@) {
                let k = choose|k: int| 0 <= k < old(names)@.len() && old(names)@[k]@ == name@;
                assert(names_view(old(names)@)[k] == name@);
            }
            if names_view(old(names)@).contains(name@) {
                let k = choose|k: int| 0 <= k < names_view(old(names)@).len() && names_view(old(names)@)[k] == name@;
                assert(old(names)@[k]@ == name@);
            }
        }
    }
    if !contains_str(names, name) {
        names.push(to_owned_string(name));
        assert(names_view(names@) =~= names_view(old(names)@).push(name@));
    }
}

fn mark_event_handler(name: &str, patch_markers: &mut PatchMarkers, is_component: bool, is_dynamic_component: bool)
    ensures
        same_flags(*final(patch_markers), event_markers(*old(patch_markers), name@, is_component, is_dynamic_component)),
        final(patch_markers).dynamic_prop_names == old(patch_markers).dynamic_prop_names,
{
    let is_event_handler = is_on(name);
    let is_reserved = is_reserved_prop(name);

    if is_event_handler && (!is_component || is_dynamic_component) && !eq_ignore_ascii_case(name, "onclick")
        && !str_eq(name, "onUpdate:modelValue") && !is_reserved {
        patch_markers.has_hydration_event_binding = true;
    }

    if is_event_handler && is_reserved {
        patch_markers.has_vnode_hook = true;
    }
}

fn mark_dynamic_value(name: &str, patch_markers: &mut PatchMarkers, is_component: bool)
    ensures
        ({
            let (m, names) = value_markers(*old(patch_markers), names_view(old(patch_markers).dynamic_prop_names@), name@, is_component);
            &&& same_flags(*final(patch_markers), m)
            &&& names_view(final(patch_markers).dynamic_prop_names@) == names
        }),
{
    if str_eq(name, "ref") {
        patch_markers.has_ref = true;
    } else if str_eq(name, "class") {
        patch_markers.has_class_binding = true;
    } else if str_eq(name, "style") {
        patch_markers.has_style_binding = true;
    } else if !str_eq(name, "key") {
        push_name_once(&mut patch_markers.dynamic_prop_names, name);
    }

    if is_component && (str_eq(name, "class") || str_eq(name, "style")) {
        push_name_once(&mut patch_markers.dynamic_prop_names, name);
    }
}

/// Updates the patch markers with a property of an element or component: a
/// dynamic key, hydration event handlers, vnode hooks, and the props that change.
#[verifier::spinoff_prover]
#[verifier::rlimit(30)]
pub fn analyze_patch_flag(static_key: Option<&str>, value_is_constant: bool, patch_markers: &mut PatchMarkers, is_component: bool, is_dynamic_component: bool)
    ensures
        ({
            let (m, names) = spec_analyze(*old(patch_markers), names_view(old(patch_markers).dynamic_prop_names@),
                match static_key { Some(k) => Some(k@), None => None }, value_is_constant, is_component, is_dynamic_component);
            &&& same_flags(*final(patch_markers), m)
            &&& names_view(final(patch_markers).dynamic_prop_names@) == names
        }),
{
    let Some(name) = static_key else {
        patch_markers.has_dynamic_keys = true;
        return;
    };
    mark_event_handler(name, patch_markers, is_component, is_dynamic_component);
    // Skip if the prop is a cached handler or has constant value
    if value_is_constant {
        return;
    }
    mark_dynamic_value(name, patch_markers, is_component);
}

/// An event handler other than a click handler (in any case), the `v-model`
/// handler `onUpdate:modelValue` and the reserved vnode hooks marks a binding
/// that hydration must attach, on an element and on a dynamic component alike,
/// but never on another component: for event handlers a dynamic component is
/// an element.
pub proof fn lemma_event_handler_hydration(m: PatchMarkers, names: Seq<Seq<char>>, name: Seq<char>, value_is_constant: bool,
    is_component: bool)
    ensures
        spec_is_on(name) && !spec_eq_ignore_ascii_case(name, "onclick"@) && name != "onUpdate:modelValue"@
            && !reserved_props().contains(name) ==> {
            &&& spec_analyze(m, names, Some(name), value_is_constant, is_component, true).0.has_hydration_event_binding
            &&& spec_analyze(m, names, Some(name), value_is_constant, false, false).0.has_hydration_event_binding
        },
        spec_analyze(m, names, Some(name), value_is_constant, is_component, true).0.has_hydration_event_binding
            == spec_analyze(m, names, Some(name), value_is_constant, false, false).0.has_hydration_event_binding,
        spec_analyze(m, names, Some(name), value_is_constant, true, false).0.has_hydration_event_binding
            == m.has_hydration_event_binding,
        !spec_is_on(name) ==> spec_analyze(m, names, Some(name), value_is_constant, is_component, true).0.has_hydration_event_binding
            == m.has_hydration_event_binding,
{
}

} // verus!
