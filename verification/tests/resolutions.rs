use fervid::transform::context::{BindingTypes, ComponentBinding, CustomDirectiveBinding, SetupBinding, TransformSfcContext};
use fervid::transform::providers::TemplateVisitor;

fn with_bindings(bindings: Vec<SetupBinding>) -> TransformSfcContext {
    let mut ctx = TransformSfcContext::anonymous();
    ctx.bindings_helper.setup_bindings.extend(bindings);
    ctx
}

fn binding(sym: &str, binding_type: BindingTypes) -> SetupBinding {
    SetupBinding { sym: sym.to_string(), binding_type }
}

fn component<'a>(visitor: &'a TemplateVisitor, name: &str) -> Option<&'a ComponentBinding> {
    visitor.ctx.bindings_helper.components.iter().find(|(n, _)| n == name).map(|(_, c)| c)
}

fn directive<'a>(visitor: &'a TemplateVisitor, name: &str) -> Option<&'a CustomDirectiveBinding> {
    visitor.ctx.bindings_helper.custom_directives.iter().find(|(n, _)| n == name).map(|(_, c)| c)
}

fn assert_component_resolved(visitor: &mut TemplateVisitor, name: &str) {
    visitor.maybe_resolve_component(name);
    assert!(matches!(component(visitor, name), Some(ComponentBinding::Resolved(_))), "{}", name);
}

fn assert_component_unresolved(visitor: &mut TemplateVisitor, name: &str) {
    visitor.maybe_resolve_component(name);
    assert!(matches!(component(visitor, name), Some(ComponentBinding::Unresolved)), "{}", name);
}

fn assert_directive_resolved(visitor: &mut TemplateVisitor, name: &str) {
    visitor.maybe_resolve_directive(name);
    assert!(matches!(directive(visitor, name), Some(CustomDirectiveBinding::Resolved(_))), "{}", name);
}

fn assert_directive_unresolved(visitor: &mut TemplateVisitor, name: &str) {
    visitor.maybe_resolve_directive(name);
    assert!(matches!(directive(visitor, name), Some(CustomDirectiveBinding::Unresolved)), "{}", name);
}

#[test]
fn it_resolves_components_pascal_case() {
    // `TestComponent` binding
    let mut ctx = with_bindings(vec![binding("TestComponent", BindingTypes::Component)]);
    let mut template_visitor = TemplateVisitor::new(&mut ctx);

    assert_component_resolved(&mut template_visitor, "test-component");
    assert_component_resolved(&mut template_visitor, "TestComponent");
    assert_component_unresolved(&mut template_visitor, "UnresolvedComponent");
}

#[test]
fn it_resolves_components_camel_case() {
    // `testComponent` binding
    let mut ctx = with_bindings(vec![binding("testComponent", BindingTypes::Component)]);
    let mut template_visitor = TemplateVisitor::new(&mut ctx);

    assert_component_resolved(&mut template_visitor, "test-component");
    // `<TestComponent>` is not recognized (same as in official compiler)
    assert_component_unresolved(&mut template_visitor, "TestComponent");
    assert_component_unresolved(&mut template_visitor, "UnresolvedComponent");
}

#[test]
fn it_resolves_components_one_word() {
    // `Foo` and `bar` bindings
    let mut ctx = with_bindings(vec![binding("Foo", BindingTypes::Component), binding("bar", BindingTypes::SetupMaybeRef)]);
    let mut template_visitor = TemplateVisitor::new(&mut ctx);

    assert_component_resolved(&mut template_visitor, "Foo");
    assert_component_resolved(&mut template_visitor, "foo");
    // `<Bar>` is not recognized (same as in official compiler)
    assert_component_unresolved(&mut template_visitor, "Bar");
    assert_component_resolved(&mut template_visitor, "bar");
}

#[test]
fn it_resolves_components_namespaced() {
    // `Foo` binding
    let mut ctx = with_bindings(vec![binding("Foo", BindingTypes::Imported)]);
    let mut template_visitor = TemplateVisitor::new(&mut ctx);

    template_visitor.maybe_resolve_component("Foo.Bar");
    assert!(matches!(component(&template_visitor, "Foo.Bar"), Some(ComponentBinding::Resolved(e)) if e.is_member()));

    template_visitor.maybe_resolve_component("foo.bar");
    assert!(matches!(component(&template_visitor, "foo.bar"), Some(ComponentBinding::Resolved(e)) if e.is_member()));
}

#[test]
fn it_resolves_directive_one_word() {
    // `vFoo` and `VBar` bindings
    let mut ctx = with_bindings(vec![binding("vFoo", BindingTypes::SetupLet), binding("VBar", BindingTypes::SetupConst)]);
    let mut template_visitor = TemplateVisitor::new(&mut ctx);

    assert_directive_resolved(&mut template_visitor, "foo"); // `v-foo`
    assert_directive_resolved(&mut template_visitor, "Foo"); // `v-Foo`
    assert_directive_resolved(&mut template_visitor, "bar"); // `v-bar`
    assert_directive_resolved(&mut template_visitor, "Bar"); // `v-Bar`
}

#[test]
fn it_resolves_directive_multi_word() {
    // `VFooBar` and `vBazQux` bindings
    let mut ctx = with_bindings(vec![binding("VFooBar", BindingTypes::Imported), binding("vBazQux", BindingTypes::SetupMaybeRef)]);
    let mut template_visitor = TemplateVisitor::new(&mut ctx);

    assert_directive_resolved(&mut template_visitor, "foo-bar"); // `v-foo-bar`
    assert_directive_resolved(&mut template_visitor, "FooBar"); // `v-FooBar`
    assert_directive_resolved(&mut template_visitor, "baz-qux"); // `v-baz-qux`
    assert_directive_resolved(&mut template_visitor, "BazQux"); // `v-BazQux`
}

#[test]
fn it_does_not_resolve_directive_without_prefix() {
    // `Foo`, `bar`, `bazQux` and `TestNotDirective` bindings
    let mut ctx = with_bindings(vec![
        binding("Foo", BindingTypes::Imported),
        binding("bar", BindingTypes::SetupLet),
        binding("bazQux", BindingTypes::SetupMaybeRef),
        binding("TestNotDirective", BindingTypes::SetupConst),
    ]);
    let mut template_visitor = TemplateVisitor::new(&mut ctx);

    assert_directive_unresolved(&mut template_visitor, "foo"); // `v-foo`
    assert_directive_unresolved(&mut template_visitor, "Foo");
    assert_directive_unresolved(&mut template_visitor, "bar");
    assert_directive_unresolved(&mut template_visitor, "Bar");
    assert_directive_unresolved(&mut template_visitor, "baz-qux");
    assert_directive_unresolved(&mut template_visitor, "bazQux");
    assert_directive_unresolved(&mut template_visitor, "BazQux");
    assert_directive_unresolved(&mut template_visitor, "test-not-directive");
    assert_directive_unresolved(&mut template_visitor, "TestNotDirective");
}

#[test]
fn referencing_scope_components_and_directives() {
    // import ChildComp from './Child.vue'
    // import SomeOtherComp from './Other.vue'
    // import vMyDir from './my-dir'
    let mut ctx = with_bindings(vec![
        binding("ChildComp", BindingTypes::Component),
        binding("SomeOtherComp", BindingTypes::Component),
        binding("vMyDir", BindingTypes::Imported),
    ]);
    let mut template_visitor = TemplateVisitor::new(&mut ctx);

    // <div v-my-dir></div>
    assert_directive_resolved(&mut template_visitor, "my-dir");
    // <ChildComp/>
    assert_component_resolved(&mut template_visitor, "ChildComp");
    // <some-other-comp/>
    assert_component_resolved(&mut template_visitor, "some-other-comp");
}

#[test]
fn resolutions_record_how_the_binding_is_written() {
    let mut ctx = with_bindings(vec![binding("Foo", BindingTypes::Imported), binding("Comp", BindingTypes::Component), binding("vDir", BindingTypes::SetupRef)]);
    let mut template_visitor = TemplateVisitor::new(&mut ctx);
    template_visitor.maybe_resolve_component("Foo.Bar");
    template_visitor.maybe_resolve_component("comp");
    template_visitor.maybe_resolve_directive("dir");
    template_visitor.maybe_resolve_directive("[dynamic]");
    match component(&template_visitor, "Foo.Bar") {
        Some(ComponentBinding::Resolved(r)) => {
            assert_eq!(r.sym, "Foo");
            assert_eq!(r.member.as_deref(), Some("Bar"));
            // Imports are used as they are outside inline mode
            assert!(matches!(r.strategy, Some(fervid::transform::expr_transform::IdentTransformStrategy::LeaveUnchanged)));
        }
        _ => panic!("Foo.Bar should resolve"),
    }
    match component(&template_visitor, "comp") {
        Some(ComponentBinding::Resolved(r)) => {
            assert_eq!(r.sym, "Comp");
            assert!(r.strategy.is_none());
            assert!(!r.is_member());
        }
        _ => panic!("comp should resolve"),
    }
    match directive(&template_visitor, "dir") {
        Some(CustomDirectiveBinding::Resolved(r)) => {
            assert_eq!(r.sym, "vDir");
            assert!(matches!(r.strategy, Some(fervid::transform::expr_transform::IdentTransformStrategy::Prefix("$setup"))));
        }
        _ => panic!("dir should resolve"),
    }
    // Names that cannot be identifiers are not recorded
    assert!(directive(&template_visitor, "[dynamic]").is_none());
    // A tag is resolved once
    let before = template_visitor.ctx.bindings_helper.components.len();
    template_visitor.maybe_resolve_component("comp");
    assert_eq!(template_visitor.ctx.bindings_helper.components.len(), before);
}
