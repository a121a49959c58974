//! The state shared by the template transforms.
use vstd::prelude::*;

use crate::analyzer::scope::Scope;
use crate::transform::expr_transform::IdentTransformStrategy;

verus! {

/// Where a variable of a template expression comes from, and so how it is written.
#[derive(Clone, Copy, PartialEq, Eq, Structural, Debug)]
pub enum BindingTypes {
    /// `data()` of the Options API
    Data,
    /// A declared prop
    Props,
    /// A prop under another local name
    PropsAliased,
    /// Computed properties, methods and injections of the Options API
    Options,
    /// Not found anywhere
    Unresolved,
    /// A variable of a template scope (`v-for`, `v-slot`)
    TemplateLocal,
    /// A global of JavaScript
    JsGlobal,
    /// A constant of a literal value
    LiteralConst,
    /// A component
    Component,
    /// An import
    Imported,
    /// A `const` that is never a ref
    SetupConst,
    /// A `let`, which may hold a ref
    SetupLet,
    /// A `const` that may be a ref
    SetupMaybeRef,
    /// A `const` holding `reactive()`
    SetupReactiveConst,
    /// A `const` holding `ref()`
    SetupRef,
}

/// A binding of the `<script setup>` block: its name and its type.
pub struct SetupBinding {
    pub sym: String,
    pub binding_type: BindingTypes,
}

/// The bindings of an Options API component.
pub struct OptionsApiBindings {
    pub data: Vec<String>,
    pub props: Vec<String>,
    pub computed: Vec<String>,
    pub methods: Vec<String>,
    pub inject: Vec<String>,
    /// What `setup()` returns
    pub setup: Vec<SetupBinding>,
    pub imports: Vec<SetupBinding>,
}

/// How the render function is generated: as a function of its own, or inline in `setup()`.
#[derive(Clone, Copy, PartialEq, Eq, Structural, Debug)]
pub enum TemplateGenerationMode {
    RenderFn,
    Inline,
}

/// The identifier a component or a directive resolved to: the binding, how the
/// binding is written in the template (nothing for a component binding, which is
/// used as it is), and for a namespaced component (`<Foo.Bar>`) the member taken
/// from it.
#[derive(Debug)]
pub struct ResolvedIdent {
    pub sym: String,
    pub strategy: Option<IdentTransformStrategy>,
    pub member: Option<String>,
}

impl ResolvedIdent {
    /// Whether the resolution is a member of the binding (`Foo.Bar`).
    pub fn is_member(&self) -> (r: bool)
        ensures
            r == self.member is Some,
    {
        self.member.is_some()
    }
}

/// The resolution of a component tag.
#[derive(Debug)]
pub enum ComponentBinding {
    Resolved(ResolvedIdent),
    Unresolved,
}

/// The resolution of a custom directive.
#[derive(Debug)]
pub enum CustomDirectiveBinding {
    Resolved(ResolvedIdent),
    Unresolved,
}

/// What the transforms know of the component's bindings.
pub struct BindingsHelper {
    pub setup_bindings: Vec<SetupBinding>,
    pub options_api_bindings: Option<OptionsApiBindings>,
    /// The scopes of the template
    pub template_scopes: Vec<Scope>,
    /// The bindings found so far, by name
    pub used_bindings: Vec<(String, BindingTypes)>,
    pub template_generation_mode: TemplateGenerationMode,
    /// The components met so far, by tag name
    pub components: Vec<(String, ComponentBinding)>,
    /// The custom directives met so far, by name
    pub custom_directives: Vec<(String, CustomDirectiveBinding)>,
}

impl Default for BindingsHelper {
    fn default() -> (r: Self)
        ensures
            r.setup_bindings@.len() == 0,
            r.options_api_bindings is None,
            r.template_scopes@.len() == 0,
            r.used_bindings@.len() == 0,
            r.template_generation_mode == TemplateGenerationMode::RenderFn,
            r.components@.len() == 0,
            r.custom_directives@.len() == 0,
    {
        BindingsHelper {
            setup_bindings: Vec::new(),
            options_api_bindings: None,
            template_scopes: Vec::new(),
            used_bindings: Vec::new(),
            template_generation_mode: TemplateGenerationMode::RenderFn,
            components: Vec::new(),
            custom_directives: Vec::new(),
        }
    }
}

/// How many `v-for` and `v-slot` scopes enclose the element being transformed.
#[derive(Clone, Copy, PartialEq, Eq, Structural, Debug)]
pub struct DirectiveScopes {
    pub v_for: u8,
    pub v_slot: u8,
}

/// The context of the transforms of one single-file component.
pub struct TransformSfcContext {
    pub bindings_helper: BindingsHelper,
    pub directive_scopes: DirectiveScopes,
}

impl TransformSfcContext {
    /// The context of a component that has no file: no bindings yet, outside any
    /// `v-for` or `v-slot`.
    pub fn anonymous() -> (r: Self)
        ensures
            r.bindings_helper.setup_bindings@.len() == 0,
            r.bindings_helper.options_api_bindings is None,
            r.bindings_helper.template_scopes@.len() == 0,
            r.bindings_helper.used_bindings@.len() == 0,
            r.bindings_helper.template_generation_mode == TemplateGenerationMode::RenderFn,
            r.bindings_helper.components@.len() == 0,
            r.bindings_helper.custom_directives@.len() == 0,
            r.directive_scopes == (DirectiveScopes { v_for: 0, v_slot: 0 }),
    {
        TransformSfcContext { bindings_helper: BindingsHelper::default(), directive_scopes: DirectiveScopes { v_for: 0, v_slot: 0 } }
    }
}

} // verus!
