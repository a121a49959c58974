//! `v-model` on a native element: which runtime directive the element takes,
//! and the template errors it reports.
use vstd::prelude::*;

use crate::text::str_eq;

verus! {

/// What `v-model` reads of an attribute of its element.
pub enum ModelAttr {
    /// `name="value"`
    Regular { name: String, value: String },
    /// `:name="..."`, a binding with a static name
    BindStatic(String),
    /// `:[name]="..."` or `v-bind="..."`: a binding whose names are not known
    BindDynamic,
    /// Any other directive
    Other,
}

/// The runtime directives of a native `v-model`.
#[derive(Clone, Copy, PartialEq, Eq, Structural, Debug)]
pub enum VModelRuntime {
    Text,
    Radio,
    Checkbox,
    Select,
    Dynamic,
}

/// The template errors of a native `v-model`.
#[derive(Clone, Copy, PartialEq, Eq, Structural, Debug)]
pub enum VModelError {
    /// `v-model:arg` on an element
    ArgOnElement,
    /// `v-model` on `<input type="file">`
    OnFileInputElement,
    /// A `:value` binding next to `v-model`, which overrides it
    UnnecessaryValue,
    /// `v-model` on an element other than `<input>`, `<textarea>` and `<select>`
    OnInvalidElement,
}

/// What a native `v-model` becomes: the runtime directive (none when the element
/// cannot take one) and the errors, in the order they are reported. The
/// `modelValue` property is always dropped, as the runtime directive gets the value.
pub struct VModelPlan {
    pub runtime: Option<VModelRuntime>,
    pub errors: Vec<VModelError>,
}

/// The mathematical value of a [`ModelAttr`].
pub enum AttrModel {
    Regular(Seq<char>, Seq<char>),
    BindStatic(Seq<char>),
    BindDynamic,
    Other,
}

pub open spec fn attr_model(a: ModelAttr) -> AttrModel {
    match a {
        ModelAttr::Regular { name, value } => AttrModel::Regular(name@, value@),
        ModelAttr::BindStatic(n) => AttrModel::BindStatic(n@),
        ModelAttr::BindDynamic => AttrModel::BindDynamic,
        ModelAttr::Other => AttrModel::Other,
    }
}

pub open spec fn attrs_model(v: Seq<ModelAttr>) -> Seq<AttrModel> {
    v.map_values(|a: ModelAttr| attr_model(a))
}

/// The directive a `type` picks: `radio` and `checkbox` have their own, any other
/// type keeps what was picked before.
pub open spec fn type_directive(value: Seq<char>, d: VModelRuntime) -> VModelRuntime {
    if value == "radio"@ {
        VModelRuntime::Radio
    } else if value == "checkbox"@ {
        VModelRuntime::Checkbox
    } else {
        d
    }
}

/// Reads the attributes of an `<input>` from `i` on, with `d` picked so far:
/// a plain `type` decides and stops the reading, as does a `:type` binding (which
/// picks the dynamic directive); a binding with unknown names picks the dynamic
/// directive and the reading goes on. Gives the directive, whether the type was
/// found, and the plain `type` value that stopped the reading, if one did.
pub open spec fn scan_input(attrs: Seq<AttrModel>, i: int, d: VModelRuntime, found: bool) -> (VModelRuntime, bool, Option<Seq<char>>)
    decreases attrs.len() - i,
{
    if i < 0 || i >= attrs.len() {
        (d, found, None)
    } else {
        match attrs[i] {
            AttrModel::Regular(name, value) => if name == "type"@ {
                (type_directive(value, d), true, Some(value))
            } else {
                scan_input(attrs, i + 1, d, found)
            },
            AttrModel::BindStatic(name) => if name == "type"@ {
                (VModelRuntime::Dynamic, true, None)
            } else {
                scan_input(attrs, i + 1, d, found)
            },
            AttrModel::BindDynamic => scan_input(attrs, i + 1, VModelRuntime::Dynamic, true),
            AttrModel::Other => scan_input(attrs, i + 1, d, found),
        }
    }
}

/// The `:value` error, when there is a `:value` binding.
pub open spec fn duplicate_value_errors(attrs: Seq<AttrModel>) -> Seq<VModelError> {
    if exists|k: int| 0 <= k < attrs.len() && attrs[k] == AttrModel::BindStatic("value"@) {
        seq![VModelError::UnnecessaryValue]
    } else {
        Seq::empty()
    }
}

/// The plan of a native `v-model` on `tag`, in development mode when `dev` holds.
pub open spec fn spec_native_v_model(tag: Seq<char>, has_argument: bool, attrs: Seq<AttrModel>, dev: bool) -> (Option<VModelRuntime>, Seq<VModelError>) {
    let arg_errors = if has_argument {
        seq![VModelError::ArgOnElement]
    } else {
        Seq::empty()
    };
    if tag == "input"@ {
        let (d, found, stop) = scan_input(attrs, 0, VModelRuntime::Text, false);
        let errors = match stop {
            Some(v) => if v == "file"@ {
                seq![VModelError::OnFileInputElement]
            } else if v == "radio"@ || v == "checkbox"@ || !dev {
                Seq::empty()
            } else {
                duplicate_value_errors(attrs)
            },
            None => if dev && !found {
                duplicate_value_errors(attrs)
            } else {
                Seq::empty()
            },
        };
        (if stop == Some("file"@) { None } else { Some(d) }, arg_errors + errors)
    } else if tag == "select"@ {
        (Some(VModelRuntime::Select), arg_errors)
    } else if tag == "textarea"@ {
        (Some(VModelRuntime::Text), arg_errors + if dev { duplicate_value_errors(attrs) } else { Seq::empty() })
    } else {
        (None, arg_errors.push(VModelError::OnInvalidElement))
    }
}

/// Whether one of `attrs` is a `:value` binding.
fn has_value_binding(attrs: &Vec<ModelAttr>) -> (r: bool)
    ensures
        r == exists|k: int| 0 <= k < attrs@.len() && attrs_model(attrs@)[k] == AttrModel::BindStatic("value"@),
{
    let mut k: usize = 0;
    while k < attrs.len()
        invariant
            k <= attrs.len(),
            forall|j: int| 0 <= j < k ==> attrs_model(attrs@)[j] != AttrModel::BindStatic("value"@),
        decreases attrs.len() - k,
    {
        if let ModelAttr::BindStatic(name) = &attrs[k] {
            if str_eq(name.as_str(), "value") {
                assert(attrs_model(attrs@)[k as int] == AttrModel::BindStatic("value"@));
                return true;
            }
        }
        assert(attrs_model(attrs@)[k as int] == attr_model(attrs@[k as int]));
        k = k + 1;
    }
    false
}

/// Pushes the `:value` error when there is a `:value` binding.
fn check_duplicate_value(attrs: &Vec<ModelAttr>, errors: &mut Vec<VModelError>)
    ensures
        final(errors)@ == old(errors)@ + duplicate_value_errors(attrs_model(attrs@)),
{
    if has_value_binding(attrs) {
        errors.push(VModelError::UnnecessaryValue);
    } else {
        assert(old(errors)@ + Seq::<VModelError>::empty() =~= old(errors)@);
    }
}

/// `v-model` on a native element `tag` (not a component), given the attributes of
/// the element and whether the directive has an argument: picks the runtime
/// directive by the tag and the input type, and reports the errors of the DOM
/// transform. `dev` turns on the development-only check of `:value`.
pub fn native_v_model(tag: &str, has_argument: bool, attrs: &Vec<ModelAttr>, dev: bool) -> (r: VModelPlan)
    ensures
        (r.runtime, r.errors@) == spec_native_v_model(tag@, has_argument, attrs_model(attrs@), dev),
{
    let ghost am = attrs_model(attrs@);
    let mut errors: Vec<VModelError> = Vec::new();
    if has_argument {
        errors.push(VModelError::ArgOnElement);
    }
    let ghost arg_errors = errors@;
    if str_eq(tag, "input") {
        let mut directive_to_use = VModelRuntime::Text;
        let mut found = false;
        let mut stop: Option<&str> = None;
        let mut i: usize = 0;
        while i < attrs.len()
            invariant_except_break
                stop is None,
                scan_input(am, i as int, directive_to_use, found) == scan_input(am, 0, VModelRuntime::Text, false),
            invariant
                i <= attrs.len(),
                am == attrs_model(attrs@),
            ensures
                scan_input(am, 0, VModelRuntime::Text, false) == (directive_to_use, found, match stop {
                    Some(s) => Some(s@),
                    None => None,
                }),
            decreases attrs.len() - i,
        {
            assert(am[i as int] == attr_model(attrs@[i as int]));
            match &attrs[i] {
                // type="something"
                ModelAttr::Regular { name, value } => {
                    if str_eq(name.as_str(), "type") {
                        if str_eq(value.as_str(), "radio") {
                            directive_to_use = VModelRuntime::Radio;
                        } else if str_eq(value.as_str(), "checkbox") {
                            directive_to_use = VModelRuntime::Checkbox;
                        }
                        found = true;
                        stop = Some(value.as_str());
                        break;
                    }
                },
                // :type="foo"
                ModelAttr::BindStatic(name) => {
                    if str_eq(name.as_str(), "type") {
                        found = true;
                        directive_to_use = VModelRuntime::Dynamic;
                        break;
                    }
                },
                // Bindings with dynamic keys can possibly contain "type":
                // don't stop here and try to find a narrower match
                ModelAttr::BindDynamic => {
                    found = true;
                    directive_to_use = VModelRuntime::Dynamic;
                },
                ModelAttr::Other => {},
            }
            i = i + 1;
        }
        let mut is_invalid_type = false;
        match stop {
            Some(v) => {
                if str_eq(v, "file") {
                    is_invalid_type = true;
                    errors.push(VModelError::OnFileInputElement);
                } else if !(str_eq(v, "radio") || str_eq(v, "checkbox")) && dev {
                    // Text type (any other type is considered text)
                    check_duplicate_value(attrs, &mut errors);
                }
            },
            None => {
                if dev && !found {
                    check_duplicate_value(attrs, &mut errors);
                }
            },
        }
        let runtime = if is_invalid_type {
            None
        } else {
            Some(directive_to_use)
        };
        assert(spec_native_v_model(tag@, has_argument, am, dev).1 =~= errors@);
        VModelPlan { runtime, errors }
    } else if str_eq(tag, "select") {
        VModelPlan { runtime: Some(VModelRuntime::Select), errors }
    } else if str_eq(tag, "textarea") {
        if dev {
            check_duplicate_value(attrs, &mut errors);
        } else {
            assert(errors@ =~= arg_errors + Seq::<VModelError>::empty());
        }
        VModelPlan { runtime: Some(VModelRuntime::Text), errors }
    } else {
        errors.push(VModelError::OnInvalidElement);
        VModelPlan { runtime: None, errors }
    }
}

} // verus!
