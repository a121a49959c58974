use fervid::analyzer::scope::Scope;
use fervid::transform::collect_vars::JsPat;
use fervid::transform::context::TransformSfcContext;
use fervid::transform::element_transform::{
    transform_element_exprs, BindInput, CustomDirectiveInput, ElementExprs, ForInput, SlotInput,
};
use fervid::transform::expr_transform::{VModelArg, VModelDirective};
use fervid::transform::script_expr::{expr_to_string, ScriptExpr};
use fervid::transform::v_for::{ForAliases, ForKeyAttr, FragmentKind};

fn id(s: &str) -> ScriptExpr {
    ScriptExpr::Ident(s.to_string())
}

fn ctx_with_root() -> TransformSfcContext {
    let mut ctx = TransformSfcContext::anonymous();
    ctx.bindings_helper.template_scopes.push(Scope { variables: vec![], parent: 0 });
    ctx
}

fn v_for(alias: &str, source: ScriptExpr) -> Option<ForInput> {
    Some(ForInput {
        aliases: ForAliases { value: JsPat::Ident(alias.to_string()), key: None, index: None },
        source,
    })
}

fn no_directives() -> ElementExprs {
    ElementExprs {
        v_for: None,
        v_slot: None,
        key_attrs: vec![],
        binds: vec![],
        v_html: None,
        v_memo: None,
        v_show: None,
        v_text: None,
        custom: vec![],
        v_models: vec![],
    }
}

#[test]
fn directive_values_are_rewritten_in_the_element_scope() {
    let mut ctx = ctx_with_root();
    let mut el = ElementExprs {
        v_for: v_for("row", id("rows")),
        v_html: Some(id("html")),
        v_show: Some(id("row")),
        custom: vec![CustomDirectiveInput { name: "focus".to_string(), value: Some(id("row")), arg: Some(id("which")) }],
        ..no_directives()
    };
    let plan = transform_element_exprs(&mut ctx, 0, &mut el);
    assert_eq!(expr_to_string(el.v_html.as_ref().unwrap()), "_ctx.html");
    assert_eq!(expr_to_string(el.v_show.as_ref().unwrap()), "row");
    assert!(el.v_text.is_none());
    assert_eq!(el.custom[0].name, "focus");
    assert_eq!(expr_to_string(el.custom[0].value.as_ref().unwrap()), "row");
    assert_eq!(expr_to_string(el.custom[0].arg.as_ref().unwrap()), "_ctx.which");
    assert!(plan.has_runtime_directives);
    assert!(!transform_element_exprs(&mut ctx, 0, &mut no_directives()).has_runtime_directives);
}

#[test]
fn v_for_opens_a_scope_and_rewrites_in_it() {
    let mut ctx = ctx_with_root();
    let mut el = ElementExprs {
        v_for: v_for("item", id("items")),
        v_slot: None,
        key_attrs: vec![],
        binds: vec![BindInput { arg: None, value: id("item") }, BindInput { arg: Some(id("name")), value: id("other") }],
        ..no_directives()
    };
    let plan = transform_element_exprs(&mut ctx, 0, &mut el);
    assert_eq!(plan.template_scope, 1);
    assert_eq!(ctx.bindings_helper.template_scopes.len(), 2);
    assert_eq!(ctx.bindings_helper.template_scopes[1].variables, vec!["item".to_string()]);
    assert_eq!(ctx.bindings_helper.template_scopes[1].parent, 0);
    assert_eq!(expr_to_string(&el.v_for.as_ref().unwrap().source), "_ctx.items");
    assert!(matches!(plan.for_kind, Some(FragmentKind::Unkeyed)));
    assert_eq!(expr_to_string(&el.binds[0].value), "item");
    assert_eq!(expr_to_string(&el.binds[1].value), "_ctx.other");
    assert_eq!(expr_to_string(el.binds[1].arg.as_ref().unwrap()), "_ctx.name");
    assert_eq!(plan.bind_dynamic, vec![true, true]);
}

#[test]
fn a_literal_source_is_stable_and_a_key_makes_it_keyed() {
    let mut ctx = ctx_with_root();
    let mut el = ElementExprs {
        v_for: v_for("i", ScriptExpr::Template(vec!["3".to_string()], vec![])),
        v_slot: None,
        key_attrs: vec![],
        binds: vec![],
        ..no_directives()
    };
    let plan = transform_element_exprs(&mut ctx, 0, &mut el);
    assert!(matches!(plan.for_kind, Some(FragmentKind::Stable)));

    let mut el = ElementExprs {
        v_for: v_for("i", id("list")),
        v_slot: None,
        key_attrs: vec![ForKeyAttr::Bind { name: "key".to_string(), value: "i".to_string() }],
        binds: vec![],
        ..no_directives()
    };
    let plan = transform_element_exprs(&mut ctx, 0, &mut el);
    assert!(matches!(plan.for_kind, Some(FragmentKind::Keyed)));
    assert_eq!(plan.template_scope, 2);
}

#[test]
fn without_v_for_or_v_slot_the_scope_stays() {
    let mut ctx = ctx_with_root();
    let mut el = ElementExprs {
        v_for: None,
        v_slot: None,
        key_attrs: vec![],
        binds: vec![BindInput { arg: None, value: ScriptExpr::Template(vec!["1".to_string()], vec![]) }],
        ..no_directives()
    };
    let plan = transform_element_exprs(&mut ctx, 0, &mut el);
    assert_eq!(plan.template_scope, 0);
    assert_eq!(ctx.bindings_helper.template_scopes.len(), 1);
    assert!(plan.for_kind.is_none());
    assert_eq!(plan.bind_dynamic, vec![false]);
}

#[test]
fn v_slot_variables_and_dynamic_name() {
    let mut ctx = ctx_with_root();
    let mut el = ElementExprs {
        v_for: None,
        v_slot: Some(SlotInput { value: Some(JsPat::Ident("props".to_string())), name: Some(id("slotName")) }),
        key_attrs: vec![],
        binds: vec![BindInput { arg: None, value: id("props") }],
        ..no_directives()
    };
    let plan = transform_element_exprs(&mut ctx, 0, &mut el);
    assert_eq!(plan.template_scope, 1);
    assert_eq!(ctx.bindings_helper.template_scopes[1].variables, vec!["props".to_string()]);
    let slot = el.v_slot.as_ref().unwrap();
    assert_eq!(expr_to_string(slot.name.as_ref().unwrap()), "_ctx.slotName");
    assert_eq!(expr_to_string(&el.binds[0].value), "props");
}

#[test]
fn v_models_are_transformed_in_the_element_scope() {
    let mut ctx = ctx_with_root();
    let mut el = ElementExprs {
        v_for: v_for("row", id("rows")),
        v_models: vec![
            VModelDirective { argument: None, value: ScriptExpr::Member(Box::new(id("row")), "name".to_string()), update_handler: None },
            VModelDirective { argument: Some(VModelArg::Static("title".to_string())), value: id("title"), update_handler: None },
            VModelDirective { argument: None, value: ScriptExpr::Call(Box::new(id("f")), vec![]), update_handler: None },
        ],
        ..no_directives()
    };
    let plan = transform_element_exprs(&mut ctx, 0, &mut el);
    assert_eq!(expr_to_string(&el.v_models[0].value), "row.name");
    assert_eq!(expr_to_string(el.v_models[0].update_handler.as_ref().unwrap()), "$event=>row.name=$event");
    assert_eq!(expr_to_string(&el.v_models[1].value), "_ctx.title");
    assert_eq!(expr_to_string(el.v_models[1].update_handler.as_ref().unwrap()), "$event=>_ctx.title=$event");
    assert!(el.v_models[2].update_handler.is_none());
    assert_eq!(plan.model_flags, 8);
    assert_eq!(plan.model_props, vec!["modelValue".to_string(), "title".to_string()]);
}
