use fervid::transform::collect_vars::{
    collect_pattern_bindings, collect_variables, JsExpr, JsPat, ObjectPatProp, PropName,
    PropOrSpread, TemplateScope,
};

fn ident(name: &str) -> JsPat {
    JsPat::Ident(name.to_string())
}

fn expr_ident(name: &str) -> JsExpr {
    JsExpr::Ident(name.to_string())
}

fn scope() -> TemplateScope {
    TemplateScope { variables: vec![], parent: 0 }
}

fn collect(pat: &JsPat) -> Vec<String> {
    let mut scope = scope();
    collect_variables(pat, &mut scope);
    scope.variables
}

fn collect_bindings(pat: &JsPat) -> Vec<String> {
    let mut scope = scope();
    collect_pattern_bindings(pat, &mut scope);
    scope.variables
}

/// `{ foo: bar }`
fn rename_pat() -> JsPat {
    JsPat::Object(vec![ObjectPatProp::KeyValue(
        PropName::Ident("foo".to_string()),
        Box::new(ident("bar")),
    )])
}

/// `{ value = outer }`
fn default_pat() -> JsPat {
    JsPat::Object(vec![ObjectPatProp::Assign(
        "value".to_string(),
        Some(Box::new(expr_ident("outer"))),
    )])
}

/// `{ [key]: value }`
fn computed_key_pat() -> JsPat {
    JsPat::Object(vec![ObjectPatProp::KeyValue(
        PropName::Computed(Box::new(expr_ident("key"))),
        Box::new(ident("value")),
    )])
}

/// `{ foo: { bar }, ...rest }`
fn rest_and_nested_pat() -> JsPat {
    JsPat::Object(vec![
        ObjectPatProp::KeyValue(
            PropName::Ident("foo".to_string()),
            Box::new(JsPat::Object(vec![ObjectPatProp::Assign("bar".to_string(), None)])),
        ),
        ObjectPatProp::Rest(Box::new(ident("rest"))),
    ])
}

#[test]
fn collect_pat_identifier() {
    assert_eq!(collect(&ident("slotProps")), vec!["slotProps"]);
}

#[test]
fn collect_expr_identifier() {
    let expr = JsPat::Expr(Box::new(expr_ident("slotProps")));
    assert_eq!(collect(&expr), vec!["slotProps"]);
}

#[test]
fn collect_pat_object_destructure_rename_current_behavior() {
    assert_eq!(collect(&rename_pat()), vec!["bar"]);
}

#[test]
fn collect_expr_object_rename_uses_value_identifier_only() {
    // `({ foo: bar })`
    let expr = JsPat::Expr(Box::new(JsExpr::Object(vec![PropOrSpread::KeyValue(
        PropName::Ident("foo".to_string()),
        Box::new(expr_ident("bar")),
    )])));
    assert_eq!(collect(&expr), vec!["bar"]);
}

#[test]
fn collect_pat_object_default_current_behavior() {
    assert_eq!(collect(&default_pat()), vec!["value", "outer"]);
}

#[test]
fn collect_pat_object_computed_key_current_behavior() {
    assert_eq!(collect(&computed_key_pat()), vec!["key", "value"]);
}

#[test]
fn collect_pat_rest_and_nested_current_behavior() {
    assert_eq!(collect(&rest_and_nested_pat()), vec!["bar", "rest"]);
}

#[test]
fn collect_pattern_bindings_identifier() {
    assert_eq!(collect_bindings(&ident("slotProps")), vec!["slotProps"]);
}

#[test]
fn collect_pattern_bindings_object_destructure_rename() {
    assert_eq!(collect_bindings(&rename_pat()), vec!["bar"]);
}

#[test]
fn collect_pattern_bindings_ignores_default_references() {
    assert_eq!(collect_bindings(&default_pat()), vec!["value"]);
}

#[test]
fn collect_pattern_bindings_ignores_computed_key_references() {
    assert_eq!(collect_bindings(&computed_key_pat()), vec!["value"]);
}

#[test]
fn collect_pattern_bindings_rest_and_nested() {
    assert_eq!(collect_bindings(&rest_and_nested_pat()), vec!["bar", "rest"]);
}

#[test]
fn collect_array_pattern_skips_holes() {
    // `[a, , ...b]`
    let pat = JsPat::Array(vec![Some(ident("a")), None, Some(JsPat::Rest(Box::new(ident("b"))))]);
    assert_eq!(collect(&pat), vec!["a", "b"]);
    assert_eq!(collect_bindings(&pat), vec!["a", "b"]);
}

#[test]
fn collect_assign_pattern_keeps_default_references_out_of_bindings() {
    // `item = fallback`
    let pat = JsPat::Assign(Box::new(ident("item")), Box::new(expr_ident("fallback")));
    assert_eq!(collect(&pat), vec!["item", "fallback"]);
    assert_eq!(collect_bindings(&pat), vec!["item"]);
}

#[test]
fn collect_object_literal_is_not_visited_further() {
    // `({ a, b: c.d, ...e })`: shorthand `a` only; `c.d` is not an identifier, the spread is skipped
    let expr = JsPat::Expr(Box::new(JsExpr::Object(vec![
        PropOrSpread::Shorthand("a".to_string()),
        PropOrSpread::KeyValue(
            PropName::Ident("b".to_string()),
            Box::new(JsExpr::Compound(vec![expr_ident("c")])),
        ),
        PropOrSpread::Spread(Box::new(expr_ident("e"))),
        PropOrSpread::Other,
    ])));
    assert_eq!(collect(&expr), vec!["a"]);
}

#[test]
fn collect_appends_to_existing_variables() {
    let mut scope = TemplateScope { variables: vec!["first".to_string()], parent: 7 };
    collect_variables(&ident("second"), &mut scope);
    assert_eq!(scope.variables, vec!["first", "second"]);
    assert_eq!(scope.parent, 7);
}

#[test]
fn collect_expression_parts_in_source_order() {
    // `a + b(c)`
    let expr = JsPat::Expr(Box::new(JsExpr::Compound(vec![
        expr_ident("a"),
        JsExpr::Compound(vec![expr_ident("b"), expr_ident("c")]),
    ])));
    assert_eq!(collect(&expr), vec!["a", "b", "c"]);
    assert_eq!(collect_bindings(&expr), Vec::<String>::new());
}
