use fervid::analyzer::scope::{Scope, ScopeHelper};
use fervid::transform::context::{BindingTypes, BindingsHelper, SetupBinding, TemplateGenerationMode};
use fervid::transform::expr_transform::{IdentTransformState, VModelArg, VModelDirective};
use fervid::transform::script_expr::{expr_to_string, test_swc_transform, transform_scoped, ObjectProp, ScriptExpr};

fn id(s: &str) -> ScriptExpr {
    ScriptExpr::Ident(s.to_string())
}

fn call(callee: ScriptExpr, args: Vec<ScriptExpr>) -> ScriptExpr {
    ScriptExpr::Call(Box::new(callee), args)
}

fn member(obj: ScriptExpr, prop: &str) -> ScriptExpr {
    ScriptExpr::Member(Box::new(obj), prop.to_string())
}

fn arrow(params: &[&str], body: ScriptExpr) -> ScriptExpr {
    ScriptExpr::Arrow(params.iter().map(|p| p.to_string()).collect(), Box::new(body))
}

fn template(pieces: &[&str], subs: Vec<ScriptExpr>) -> ScriptExpr {
    ScriptExpr::Template(pieces.iter().map(|p| p.to_string()).collect(), subs)
}

/// `(a, b)`
fn paren_seq(a: ScriptExpr, b: ScriptExpr) -> ScriptExpr {
    template(&["(", ")"], vec![template(&["", ",", ""], vec![a, b])])
}

fn assign(target: ScriptExpr, value: ScriptExpr) -> ScriptExpr {
    ScriptExpr::Assign(Box::new(target), "=".to_string(), Box::new(value))
}

fn transformed(helper: &mut BindingsHelper, mut e: ScriptExpr) -> String {
    helper.transform_expr(&mut e, 0);
    expr_to_string(&e)
}

fn binding(sym: &str, binding_type: BindingTypes) -> SetupBinding {
    SetupBinding { sym: sym.to_string(), binding_type }
}

fn inline_helper() -> BindingsHelper {
    let mut helper = BindingsHelper::default();
    helper.template_generation_mode = TemplateGenerationMode::Inline;
    for (sym, t) in [
        ("Ref", BindingTypes::SetupRef),
        ("MaybeRef", BindingTypes::SetupMaybeRef),
        ("Const", BindingTypes::SetupConst),
        ("Let", BindingTypes::SetupLet),
        ("Imp", BindingTypes::Imported),
    ] {
        helper.setup_bindings.push(binding(sym, t));
    }
    helper
}

#[test]
fn it_acknowledges_local_vars() {
    let mut helper = BindingsHelper::default();

    // $event => console.log($event)
    let e = arrow(&["$event"], call(member(id("console"), "log"), vec![id("$event")]));
    assert_eq!(transformed(&mut helper, e), "$event=>console.log($event)");

    // $event => console.log($event, foo)
    let e = arrow(&["$event"], call(member(id("console"), "log"), vec![id("$event"), id("foo")]));
    assert_eq!(transformed(&mut helper, e), "$event=>console.log($event,_ctx.foo)");

    // x => y => doSmth(x, y, z)
    let e = arrow(&["x"], arrow(&["y"], call(id("doSmth"), vec![id("x"), id("y"), id("z")])));
    assert_eq!(transformed(&mut helper, e), "x=>y=>_ctx.doSmth(x,y,_ctx.z)");

    // (x => doSmth(x), y => doSmth(x))
    let e = paren_seq(arrow(&["x"], call(id("doSmth"), vec![id("x")])), arrow(&["y"], call(id("doSmth"), vec![id("x")])));
    assert_eq!(transformed(&mut helper, e), "(x=>_ctx.doSmth(x),y=>_ctx.doSmth(_ctx.x))");

    // (x => doSmth(x), () => doSmth(x))
    let e = paren_seq(arrow(&["x"], call(id("doSmth"), vec![id("x")])), arrow(&[], call(id("doSmth"), vec![id("x")])));
    assert_eq!(transformed(&mut helper, e), "(x=>_ctx.doSmth(x),()=>_ctx.doSmth(_ctx.x))");
}

#[test]
fn rewrite_reports_bindings_that_change() {
    let mut helper = BindingsHelper::default();
    let mut e = template(&["1"], vec![]);
    assert!(!helper.transform_expr(&mut e, 0));
    assert_eq!(expr_to_string(&e), "1");

    let mut e = id("foo");
    assert!(helper.transform_expr(&mut e, 0));
    assert_eq!(expr_to_string(&e), "_ctx.foo");

    // A global stays and does not change
    let mut e = call(member(id("Math"), "max"), vec![template(&["1"], vec![]), template(&["2"], vec![])]);
    assert!(!helper.transform_expr(&mut e, 0));
    assert_eq!(expr_to_string(&e), "Math.max(1,2)");
}

#[test]
fn inline_refs_are_unwrapped() {
    let mut helper = inline_helper();
    assert_eq!(transformed(&mut helper, id("Ref")), "Ref.value");
    assert_eq!(transformed(&mut helper, id("MaybeRef")), "_unref(MaybeRef)");
    assert_eq!(transformed(&mut helper, id("Let")), "_unref(Let)");
    assert_eq!(transformed(&mut helper, id("Imp")), "_unref(Imp)");
    assert_eq!(transformed(&mut helper, id("Const")), "Const");
    assert_eq!(transformed(&mut helper, id("Unknown")), "_ctx.Unknown");
}

#[test]
fn inline_assignments() {
    let mut helper = inline_helper();
    // Ref = 1
    assert_eq!(transformed(&mut helper, assign(id("Ref"), template(&["1"], vec![]))), "Ref.value=1");
    // MaybeRef = 1 (outside v-model: written to its value)
    assert_eq!(transformed(&mut helper, assign(id("MaybeRef"), template(&["1"], vec![]))), "MaybeRef.value=1");
    // Let = x
    assert_eq!(
        transformed(&mut helper, assign(id("Let"), id("x"))),
        "_isRef(Let)?Let.value=_ctx.x:Let=_ctx.x"
    );
    // Unknown = Ref
    assert_eq!(transformed(&mut helper, assign(id("Unknown"), id("Ref"))), "_ctx.Unknown=Ref.value");
}

#[test]
fn inline_updates() {
    let mut helper = inline_helper();
    let upd = |x: &str, prefix: bool| ScriptExpr::Update("++".to_string(), prefix, Box::new(id(x)));
    assert_eq!(transformed(&mut helper, upd("Let", false)), "_isRef(Let)?Let.value++:Let++");
    assert_eq!(transformed(&mut helper, upd("Let", true)), "_isRef(Let)?++Let.value:++Let");
    assert_eq!(transformed(&mut helper, upd("MaybeRef", false)), "MaybeRef.value++");
    assert_eq!(transformed(&mut helper, upd("Ref", false)), "Ref.value++");
}

#[test]
fn object_shorthands_are_written_out() {
    let mut helper = BindingsHelper::default();
    let e = ScriptExpr::Object(vec![
        ObjectProp::Shorthand("a".to_string()),
        ObjectProp::KeyValue("b".to_string(), Box::new(id("c"))),
        ObjectProp::Spread(Box::new(id("d"))),
    ]);
    let mut e2 = e;
    assert!(helper.transform_expr(&mut e2, 0));
    assert_eq!(expr_to_string(&e2), "{a:_ctx.a,b:_ctx.c,..._ctx.d}");
}

#[test]
fn member_properties_and_identifier_indexes_stay() {
    let mut helper = BindingsHelper::default();
    let e = member(id("a"), "b");
    assert_eq!(transformed(&mut helper, e), "_ctx.a.b");
    // a[b]: the index of an identifier stays
    let e = ScriptExpr::Index(Box::new(id("a")), Box::new(id("b")));
    assert_eq!(transformed(&mut helper, e), "_ctx.a[b]");
    // a.b[c]: otherwise it is rewritten
    let e = ScriptExpr::Index(Box::new(member(id("a"), "b")), Box::new(id("c")));
    assert_eq!(transformed(&mut helper, e), "_ctx.a.b[_ctx.c]");
}

#[test]
fn template_variables_stay() {
    let mut helper = BindingsHelper::default();
    helper.template_scopes.push(Scope { variables: vec!["item".to_string()], parent: 0 });
    let e = template(&["", "+", ""], vec![id("item"), id("other")]);
    assert_eq!(transformed(&mut helper, e), "item+_ctx.other");
}

#[test]
fn the_state_keeps_its_local_variables() {
    let mut helper = BindingsHelper::default();
    let mut st = IdentTransformState {
        local_vars: vec!["x".to_string()],
        current_scope: 0,
        is_inline: false,
        is_in_destructure_assign: false,
        is_in_assign_target: false,
        is_v_model_transform: false,
        has_update_expr: false,
        has_js_bindings: false,
    };
    let mut e = call(id("f"), vec![id("x")]);
    assert!(st.transform_js_expr(&mut helper, &mut e));
    assert_eq!(expr_to_string(&e), "_ctx.f(x)");
    assert_eq!(st.local_vars, vec!["x".to_string()]);
}

#[test]
fn scoped_transform_prefixes_every_identifier() {
    // [a, b, c, { d }]
    let e = template(
        &["[", ",", ",", ",", "]"],
        vec![id("a"), id("b"), id("c"), ScriptExpr::Object(vec![ObjectProp::Shorthand("d".to_string())])],
    );
    assert_eq!(test_swc_transform(&e), "[_ctx.a,_ctx.b,_ctx.c,{d:_ctx.d}]");

    let mut sh = ScopeHelper::default();
    sh.template_scopes.push(Scope { variables: vec!["item".to_string()], parent: 0 });
    sh.setup_vars.push("count".to_string());
    let e = template(&["", "+", "+", ""], vec![id("item"), id("count"), id("true")]);
    assert_eq!(transform_scoped(&e, &sh, 0), "item+$setup.count+true");
}

#[test]
fn printing_follows_the_tree() {
    let e = arrow(&["a", "b"], ScriptExpr::Update("--".to_string(), false, Box::new(member(id("a"), "n"))));
    assert_eq!(expr_to_string(&e), "(a,b)=>a.n--");
    let e = template(&["`x${", "}y`"], vec![id("z")]);
    assert_eq!(expr_to_string(&e), "`x${z}y`");
}

fn v_model_helper() -> BindingsHelper {
    let mut helper = BindingsHelper::default();
    for (sym, t) in [
        ("Ref", BindingTypes::SetupRef),
        ("MaybeRef", BindingTypes::SetupMaybeRef),
        ("Const", BindingTypes::SetupConst),
        ("Let", BindingTypes::SetupLet),
        ("Reactive", BindingTypes::SetupReactiveConst),
    ] {
        helper.setup_bindings.push(binding(sym, t));
    }
    helper
}

/// `name` or `name.x`
fn value_expr(src: &str) -> ScriptExpr {
    match src.split_once('.') {
        Some((obj, prop)) => member(id(obj), prop),
        None => id(src),
    }
}

fn check_v_model(helper: &mut BindingsHelper, value: &str, expected_value: &str, expected_handler: &str) {
    let mut v_model = VModelDirective { argument: None, value: value_expr(value), update_handler: None };
    let mut flags = 0u32;
    let mut props: Vec<String> = vec![];
    helper.transform_v_model(&mut v_model, 0, &mut flags, &mut props);
    assert_eq!(expr_to_string(&v_model.value), expected_value);
    assert_eq!(expr_to_string(&v_model.update_handler.expect("Handler cannot be None")), expected_handler);
}

#[test]
fn it_transforms_v_model() {
    let mut helper = v_model_helper();

    // DEV DIRECT
    check_v_model(&mut helper, "Ref", "$setup.Ref", "$event=>$setup.Ref=$event");
    check_v_model(&mut helper, "MaybeRef", "$setup.MaybeRef", "$event=>$setup.MaybeRef=$event");
    check_v_model(&mut helper, "Const", "$setup.Const", "$event=>$setup.Const=$event");
    check_v_model(&mut helper, "Let", "$setup.Let", "$event=>$setup.Let=$event");
    check_v_model(&mut helper, "Reactive", "$setup.Reactive", "$event=>$setup.Reactive=$event");
    check_v_model(&mut helper, "Unknown", "_ctx.Unknown", "$event=>_ctx.Unknown=$event");

    // DEV INDIRECT
    check_v_model(&mut helper, "Ref.x", "$setup.Ref.x", "$event=>$setup.Ref.x=$event");
    check_v_model(&mut helper, "MaybeRef.x", "$setup.MaybeRef.x", "$event=>$setup.MaybeRef.x=$event");
    check_v_model(&mut helper, "Const.x", "$setup.Const.x", "$event=>$setup.Const.x=$event");
    check_v_model(&mut helper, "Let.x", "$setup.Let.x", "$event=>$setup.Let.x=$event");
    check_v_model(&mut helper, "Reactive.x", "$setup.Reactive.x", "$event=>$setup.Reactive.x=$event");
    check_v_model(&mut helper, "Unknown.x", "_ctx.Unknown.x", "$event=>_ctx.Unknown.x=$event");

    // PROD DIRECT
    helper.template_generation_mode = TemplateGenerationMode::Inline;
    check_v_model(&mut helper, "Ref", "Ref.value", "$event=>Ref.value=$event");
    check_v_model(&mut helper, "MaybeRef", "_unref(MaybeRef)", "$event=>_isRef(MaybeRef)?MaybeRef.value=$event:null");
    check_v_model(&mut helper, "Const", "Const", "$event=>Const=$event");
    check_v_model(&mut helper, "Let", "_unref(Let)", "$event=>_isRef(Let)?Let.value=$event:Let=$event");
    check_v_model(&mut helper, "Reactive", "Reactive", "$event=>Reactive=$event");
    check_v_model(&mut helper, "Unknown", "_ctx.Unknown", "$event=>_ctx.Unknown=$event");

    // PROD INDIRECT
    check_v_model(&mut helper, "Ref.x", "Ref.value.x", "$event=>Ref.value.x=$event");
    check_v_model(&mut helper, "MaybeRef.x", "_unref(MaybeRef).x", "$event=>_unref(MaybeRef).x=$event");
    check_v_model(&mut helper, "Const.x", "Const.x", "$event=>Const.x=$event");
    check_v_model(&mut helper, "Let.x", "_unref(Let).x", "$event=>_unref(Let).x=$event");
    check_v_model(&mut helper, "Reactive.x", "Reactive.x", "$event=>Reactive.x=$event");
    check_v_model(&mut helper, "Unknown.x", "_ctx.Unknown.x", "$event=>_ctx.Unknown.x=$event");
}

fn check_v_model_arg(helper: &mut BindingsHelper, argument: ScriptExpr, expected: &str) {
    let mut v_model = VModelDirective { argument: Some(VModelArg::Dynamic(argument)), value: id("dummy"), update_handler: None };
    let mut flags = 0u32;
    let mut props: Vec<String> = vec![];
    helper.transform_v_model(&mut v_model, 0, &mut flags, &mut props);
    let Some(VModelArg::Dynamic(arg_expr)) = v_model.argument else {
        unreachable!("This is something unexpected")
    };
    assert_eq!(expr_to_string(&arg_expr), expected);
    assert_eq!(flags, 16);
    assert!(props.is_empty());
}

#[test]
fn it_transforms_v_model_arg() {
    let mut helper = BindingsHelper::default();
    helper.setup_bindings.push(binding("Ref", BindingTypes::SetupRef));

    // DEV
    check_v_model_arg(&mut helper, id("Ref"), "$setup.Ref");
    check_v_model_arg(&mut helper, id("Unknown"), "_ctx.Unknown");
    check_v_model_arg(&mut helper, template(&["\"string\""], vec![]), "\"string\"");

    // PROD
    helper.template_generation_mode = TemplateGenerationMode::Inline;
    check_v_model_arg(&mut helper, id("Ref"), "Ref.value");
    check_v_model_arg(&mut helper, id("Unknown"), "_ctx.Unknown");
    check_v_model_arg(&mut helper, template(&["\"string\""], vec![]), "\"string\"");
}

#[test]
fn v_model_patch_hints() {
    let mut helper = BindingsHelper::default();
    let mut flags = 0u32;
    let mut props: Vec<String> = vec![];
    let mut v_model = VModelDirective { argument: None, value: id("foo"), update_handler: None };
    helper.transform_v_model(&mut v_model, 0, &mut flags, &mut props);
    assert_eq!(flags, 8);
    assert_eq!(props, vec!["modelValue".to_string()]);

    let mut v_model = VModelDirective { argument: Some(VModelArg::Static("title".to_string())), value: id("foo"), update_handler: None };
    helper.transform_v_model(&mut v_model, 0, &mut flags, &mut props);
    assert_eq!(props, vec!["modelValue".to_string(), "title".to_string()]);

    // A value that cannot be assigned to is left as it is
    let mut v_model = VModelDirective { argument: None, value: call(id("f"), vec![]), update_handler: None };
    helper.transform_v_model(&mut v_model, 0, &mut flags, &mut props);
    assert!(v_model.update_handler.is_none());
    assert_eq!(expr_to_string(&v_model.value), "f()");
    assert_eq!(props.len(), 2);
}
