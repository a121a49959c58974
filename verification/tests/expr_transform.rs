use fervid::analyzer::scope::Scope;
use fervid::transform::context::{BindingTypes, BindingsHelper, OptionsApiBindings, SetupBinding};
use fervid::transform::expr_transform::{get_prefix, is_js_global, IdentTransformState, IdentTransformStrategy};

const JS_BUILTINS: [&str; 68] = [
    "console",
    "undefined",
    "globalThis",
    "Infinity",
    "NaN",
    "eval",
    "isFinite",
    "isNaN",
    "parseFloat",
    "parseInt",
    "decodeURI",
    "decodeURIComponent",
    "encodeURI",
    "encodeURIComponent",
    "escape",
    "unescape",
    "Object",
    "Function",
    "Boolean",
    "Symbol",
    "Error",
    "AggregateError",
    "EvalError",
    "RangeError",
    "ReferenceError",
    "SyntaxError",
    "TypeError",
    "URIError",
    "Number",
    "BigInt",
    "Math",
    "Date",
    "String",
    "RegExp",
    "Array",
    "Int8Array",
    "Uint8Array",
    "Uint8ClampedArray",
    "Int16Array",
    "Uint16Array",
    "Int32Array",
    "Uint32Array",
    "BigInt64Array",
    "BigUint64Array",
    "Float32Array",
    "Float64Array",
    "Map",
    "Set",
    "WeakMap",
    "WeakSet",
    "ArrayBuffer",
    "SharedArrayBuffer",
    "DataView",
    "Atomics",
    "JSON",
    "WeakRef",
    "FinalizationRegistry",
    "Iterator",
    "AsyncIterator",
    "Promise",
    "GeneratorFunction",
    "AsyncGeneratorFunction",
    "Generator",
    "AsyncGenerator",
    "AsyncFunction",
    "Reflect",
    "Proxy",
    "Intl",
];

#[test]
fn it_acknowledges_builtins() {
    let mut helper = BindingsHelper::default();

    for builtin in JS_BUILTINS.iter() {
        assert_eq!(BindingTypes::JsGlobal, helper.get_var_binding_type(0, builtin));
    }

    // The generation mode does not change where a name comes from
    for builtin in JS_BUILTINS.iter() {
        assert_eq!(BindingTypes::JsGlobal, helper.get_var_binding_type(0, builtin));
    }
}

#[test]
fn it_works_with_template_scope_hierarchy() {
    let root_scope = Scope { parent: 0, variables: vec!["root".to_string()] };
    let child_scope = Scope { parent: 0, variables: vec!["child1".to_string(), "child2".to_string()] };
    let grandchild1_scope = Scope { parent: 1, variables: vec!["grand1_1".to_string(), "grand1_2".to_string()] };
    let grandchild2_scope = Scope { parent: 1, variables: vec!["grand2_1".to_string(), "grand2_2".to_string()] };

    let mut scope_helper = BindingsHelper::default();
    scope_helper.template_scopes.extend(vec![root_scope, child_scope, grandchild1_scope, grandchild2_scope]);

    assert_eq!(scope_helper.get_var_binding_type(0, "root"), BindingTypes::TemplateLocal);
    assert_eq!(scope_helper.get_var_binding_type(1, "root"), BindingTypes::TemplateLocal);
    assert_eq!(scope_helper.get_var_binding_type(2, "root"), BindingTypes::TemplateLocal);
    assert_eq!(scope_helper.get_var_binding_type(3, "root"), BindingTypes::TemplateLocal);
    assert_eq!(scope_helper.get_var_binding_type(0, "child1"), BindingTypes::Unresolved);
    assert_eq!(scope_helper.get_var_binding_type(1, "child1"), BindingTypes::TemplateLocal);
    assert_eq!(scope_helper.get_var_binding_type(2, "child1"), BindingTypes::TemplateLocal);
    assert_eq!(scope_helper.get_var_binding_type(3, "child1"), BindingTypes::TemplateLocal);
    assert_eq!(scope_helper.get_var_binding_type(0, "child2"), BindingTypes::Unresolved);
    assert_eq!(scope_helper.get_var_binding_type(1, "child2"), BindingTypes::TemplateLocal);
    assert_eq!(scope_helper.get_var_binding_type(2, "child2"), BindingTypes::TemplateLocal);
    assert_eq!(scope_helper.get_var_binding_type(3, "child2"), BindingTypes::TemplateLocal);
    assert_eq!(scope_helper.get_var_binding_type(0, "grand1_1"), BindingTypes::Unresolved);
    assert_eq!(scope_helper.get_var_binding_type(1, "grand1_1"), BindingTypes::Unresolved);
    assert_eq!(scope_helper.get_var_binding_type(2, "grand1_1"), BindingTypes::TemplateLocal);
    assert_eq!(scope_helper.get_var_binding_type(3, "grand1_1"), BindingTypes::Unresolved);
    assert_eq!(scope_helper.get_var_binding_type(0, "grand1_2"), BindingTypes::Unresolved);
    assert_eq!(scope_helper.get_var_binding_type(1, "grand1_2"), BindingTypes::Unresolved);
    assert_eq!(scope_helper.get_var_binding_type(2, "grand1_2"), BindingTypes::TemplateLocal);
    assert_eq!(scope_helper.get_var_binding_type(3, "grand1_2"), BindingTypes::Unresolved);
    assert_eq!(scope_helper.get_var_binding_type(0, "grand2_1"), BindingTypes::Unresolved);
    assert_eq!(scope_helper.get_var_binding_type(1, "grand2_1"), BindingTypes::Unresolved);
    assert_eq!(scope_helper.get_var_binding_type(2, "grand2_1"), BindingTypes::Unresolved);
    assert_eq!(scope_helper.get_var_binding_type(3, "grand2_1"), BindingTypes::TemplateLocal);
    assert_eq!(scope_helper.get_var_binding_type(0, "grand2_2"), BindingTypes::Unresolved);
    assert_eq!(scope_helper.get_var_binding_type(1, "grand2_2"), BindingTypes::Unresolved);
    assert_eq!(scope_helper.get_var_binding_type(2, "grand2_2"), BindingTypes::Unresolved);
    assert_eq!(scope_helper.get_var_binding_type(3, "grand2_2"), BindingTypes::TemplateLocal);
}

fn binding(sym: &str, binding_type: BindingTypes) -> SetupBinding {
    SetupBinding { sym: sym.to_string(), binding_type }
}

fn strings(v: &[&str]) -> Vec<String> {
    v.iter().map(|s| s.to_string()).collect()
}

#[test]
fn prefixes_by_binding_type() {
    assert_eq!(get_prefix(&BindingTypes::Data, false), Some("$data"));
    assert_eq!(get_prefix(&BindingTypes::Props, false), Some("$props"));
    assert_eq!(get_prefix(&BindingTypes::Options, false), Some("$options"));
    assert_eq!(get_prefix(&BindingTypes::SetupRef, false), Some("$setup"));
    assert_eq!(get_prefix(&BindingTypes::Unresolved, false), Some("_ctx"));
    assert_eq!(get_prefix(&BindingTypes::TemplateLocal, false), None);
    assert_eq!(get_prefix(&BindingTypes::Imported, false), None);
    assert_eq!(get_prefix(&BindingTypes::Data, true), Some("_ctx"));
    assert_eq!(get_prefix(&BindingTypes::Props, true), Some("__props"));
    assert_eq!(get_prefix(&BindingTypes::SetupRef, true), None);
    assert_eq!(get_prefix(&BindingTypes::PropsAliased, true), None);
    assert!(is_js_global("Intl"));
    assert!(!is_js_global("intl"));
}

#[test]
fn bindings_are_found_and_remembered() {
    let mut helper = BindingsHelper::default();
    helper.setup_bindings.push(binding("count", BindingTypes::SetupRef));
    helper.options_api_bindings = Some(OptionsApiBindings {
        data: strings(&["state"]),
        props: strings(&["title"]),
        computed: strings(&["total"]),
        methods: strings(&["save"]),
        inject: strings(&["theme"]),
        setup: vec![binding("count", BindingTypes::SetupConst), binding("fromSetup", BindingTypes::SetupLet)],
        imports: vec![binding("helper", BindingTypes::Imported)],
    });
    // `<script setup>` comes before `setup()`
    assert_eq!(helper.get_var_binding_type(0, "count"), BindingTypes::SetupRef);
    assert_eq!(helper.get_var_binding_type(0, "fromSetup"), BindingTypes::SetupLet);
    assert_eq!(helper.get_var_binding_type(0, "state"), BindingTypes::Data);
    assert_eq!(helper.get_var_binding_type(0, "title"), BindingTypes::Props);
    assert_eq!(helper.get_var_binding_type(0, "total"), BindingTypes::Options);
    assert_eq!(helper.get_var_binding_type(0, "save"), BindingTypes::Options);
    assert_eq!(helper.get_var_binding_type(0, "theme"), BindingTypes::Options);
    assert_eq!(helper.get_var_binding_type(0, "helper"), BindingTypes::SetupMaybeRef);
    assert_eq!(helper.get_var_binding_type(0, "missing"), BindingTypes::Unresolved);
    let remembered: Vec<(&str, BindingTypes)> = helper.used_bindings.iter().map(|(n, t)| (n.as_str(), *t)).collect();
    assert_eq!(
        remembered,
        vec![
            ("count", BindingTypes::SetupRef),
            ("fromSetup", BindingTypes::SetupLet),
            ("state", BindingTypes::Data),
            ("title", BindingTypes::Props),
            ("total", BindingTypes::Options),
            ("save", BindingTypes::Options),
            ("theme", BindingTypes::Options),
            ("helper", BindingTypes::SetupMaybeRef),
        ]
    );

    // What was found before wins over the bindings
    helper.setup_bindings[0].binding_type = BindingTypes::SetupConst;
    assert_eq!(helper.get_var_binding_type(0, "count"), BindingTypes::SetupRef);
    // A template variable wins over everything but the globals
    helper.template_scopes.push(Scope { parent: 0, variables: strings(&["count", "Math"]) });
    assert_eq!(helper.get_var_binding_type(0, "count"), BindingTypes::TemplateLocal);
    assert_eq!(helper.get_var_binding_type(0, "Math"), BindingTypes::JsGlobal);
}

fn state(inline: bool) -> IdentTransformState {
    IdentTransformState {
        local_vars: vec![],
        current_scope: 0,
        is_inline: inline,
        is_in_destructure_assign: false,
        is_in_assign_target: false,
        is_v_model_transform: false,
        has_update_expr: false,
        has_js_bindings: false,
    }
}

fn strategy_name(s: &IdentTransformStrategy) -> String {
    match s {
        IdentTransformStrategy::LeaveUnchanged => "leave".to_string(),
        IdentTransformStrategy::DotValue => "value".to_string(),
        IdentTransformStrategy::Unref => "unref".to_string(),
        IdentTransformStrategy::Prefix(p) => format!("prefix {}", p),
        IdentTransformStrategy::IsRefCheckUpdate => "isref".to_string(),
    }
}

fn helper_with_setup() -> BindingsHelper {
    let mut helper = BindingsHelper::default();
    for (sym, t) in [
        ("Ref", BindingTypes::SetupRef),
        ("MaybeRef", BindingTypes::SetupMaybeRef),
        ("Const", BindingTypes::SetupConst),
        ("Let", BindingTypes::SetupLet),
        ("Reactive", BindingTypes::SetupReactiveConst),
        ("Imp", BindingTypes::Imported),
    ] {
        helper.setup_bindings.push(binding(sym, t));
    }
    helper
}

#[test]
fn identifiers_outside_inline_mode_take_prefixes() {
    let mut helper = helper_with_setup();
    let mut st = state(false);
    for (sym, expected) in [
        ("Ref", "prefix $setup"),
        ("MaybeRef", "prefix $setup"),
        ("Let", "prefix $setup"),
        ("Unknown", "prefix _ctx"),
        ("Imp", "leave"),
        ("console", "leave"),
    ] {
        assert_eq!(strategy_name(&st.determine_ident_transform_strategy(&mut helper, sym)), expected, "{}", sym);
    }
}

#[test]
fn identifiers_in_inline_mode() {
    let mut helper = helper_with_setup();
    let mut st = state(true);
    for (sym, expected) in [
        ("Ref", "value"),
        ("MaybeRef", "unref"),
        ("Const", "leave"),
        ("Let", "unref"),
        ("Reactive", "leave"),
        ("Imp", "unref"),
        ("Unknown", "prefix _ctx"),
    ] {
        assert_eq!(strategy_name(&st.determine_ident_transform_strategy(&mut helper, sym)), expected, "{}", sym);
    }
    assert!(st.has_js_bindings);

    // In updates and assignments
    let mut st = state(true);
    st.has_update_expr = true;
    assert_eq!(strategy_name(&st.determine_ident_transform_strategy(&mut helper, "MaybeRef")), "value");
    assert_eq!(strategy_name(&st.determine_ident_transform_strategy(&mut helper, "Let")), "isref");
    let mut st = state(true);
    st.is_in_assign_target = true;
    assert_eq!(strategy_name(&st.determine_ident_transform_strategy(&mut helper, "MaybeRef")), "value");
    st.is_v_model_transform = true;
    assert_eq!(strategy_name(&st.determine_ident_transform_strategy(&mut helper, "MaybeRef")), "unref");
}

#[test]
fn local_and_template_variables_stay() {
    let mut helper = helper_with_setup();
    helper.template_scopes.push(Scope { parent: 0, variables: strings(&["item"]) });
    let mut st = state(false);
    st.local_vars.push("Ref".to_string());
    assert_eq!(strategy_name(&st.determine_ident_transform_strategy(&mut helper, "Ref")), "leave");
    assert!(st.has_js_bindings);
    let mut st = state(false);
    assert_eq!(strategy_name(&st.determine_ident_transform_strategy(&mut helper, "item")), "leave");
    assert!(st.has_js_bindings);
    let mut st = state(true);
    assert_eq!(strategy_name(&st.determine_ident_transform_strategy(&mut helper, "Const")), "leave");
    assert!(!st.has_js_bindings);
}
