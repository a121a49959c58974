//! Which directives are generated through `_withDirectives`.
use vstd::prelude::*;

use crate::parser::attributes::HtmlAttribute;
use crate::parser::structs::StartingTag;
use crate::text::str_eq;

verus! {

/// "bind", "on" and "slot" are generated separately; "model" of a component has its own logic.
pub open spec fn spec_supports_with_directive(directive_name: Seq<char>, is_component: bool) -> bool {
    if directive_name == "bind"@ || directive_name == "on"@ || directive_name == "slot"@ {
        false
    } else if directive_name == "model"@ && is_component {
        false
    } else {
        true
    }
}

/// Whether an element or component needs `_withDirectives(<node>, <directives>)`:
/// it has a directive for which `_withDirectives` can be generated.
pub open spec fn spec_needs_directive_wrapper(attributes: Seq<HtmlAttribute>, is_component: bool) -> bool {
    exists|k: int| 0 <= k < attributes.len() && is_wrapped_directive(#[trigger] attributes[k], is_component)
}

/// A directive that `_withDirectives` generates.
pub open spec fn is_wrapped_directive(attribute: HtmlAttribute, is_component: bool) -> bool {
    attribute matches HtmlAttribute::VDirective(d) && spec_supports_with_directive(d.name@, is_component)
}

/// Checks if `withDirective` can be generated for a given directive name
/// "bind", "on" and "slot" are generated separately
/// "model" for `is_component` also has a separate logic
pub fn supports_with_directive(directive_name: &str, is_component: bool) -> (r: bool)
    ensures
        r == spec_supports_with_directive(directive_name@, is_component),
{
    if str_eq(directive_name, "bind") || str_eq(directive_name, "on") || str_eq(directive_name, "slot") {
        false
    } else if str_eq(directive_name, "model") && is_component {
        false
    } else {
        true
    }
}

/// Function for determining whether a given element/component
/// needs to be wrapped in `_withDirectives(<node code>, <directives code>)`
/// Typically, it depends on `is_component` flag:
/// 1. `is_component = true` and component has any directive other than 'on', 'bind', 'slot' and 'model';
/// 2. `is_component = false` and element has any directive other than 'on', 'bind' and 'slot'.
pub fn needs_directive_wrapper(starting_tag: &StartingTag, is_component: bool) -> (r: bool)
    ensures
        r == spec_needs_directive_wrapper(starting_tag.attributes@, is_component),
{
    let attrs = &starting_tag.attributes;
    let mut k: usize = 0;
    while k < attrs.len()
        invariant
            k <= attrs.len(),
            attrs@ == starting_tag.attributes@,
            forall|j: int| 0 <= j < k ==> !is_wrapped_directive(#[trigger] attrs@[j], is_component),
        decreases attrs.len() - k,
    {
        let a = &attrs[k];
        if let HtmlAttribute::VDirective(d) = a {
            if supports_with_directive(d.name.as_str(), is_component) {
                assert(is_wrapped_directive(attrs@[k as int], is_component));
                return true;
            }
        }
        k = k + 1;
    }
    false
}

} // verus!
