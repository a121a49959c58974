use fervid::parser::structs::{ElementKind, ElementNode, StartingTag};
use fervid::transform::asset_urls::{
    asset_url_import, is_asset_url, is_data_url, is_external_url, is_relative_url, split_hash, strip_prefix, AssetImport,
};
use fervid::transform::context::{BindingTypes, BindingsHelper, DirectiveScopes, SetupBinding, TransformSfcContext};
use fervid::transform::dom_v_on::{options_postfix, plan_v_on_modifiers, resolve_modifiers, HandlerKey};
use fervid::transform::resolutions::{find_binding, is_component_tag, is_on, is_reserved_prop};
use fervid::transform::scope_tracking::{enter_element_scope, restore_element_scope_snapshot, save_element_scope_snapshot};
use fervid::transform::utils::to_valid_asset_id;

fn strings(v: &[&str]) -> Vec<String> {
    v.iter().map(|s| s.to_string()).collect()
}

fn static_key(name: &str) -> HandlerKey {
    HandlerKey::Simple { sym: name.to_string(), is_static: true }
}

fn tag(name: &str) -> StartingTag {
    StartingTag { tag_name: name.to_string(), attributes: vec![], is_self_closing: false, kind: ElementKind::Normal }
}

#[test]
fn asset_ids() {
    assert_eq!(to_valid_asset_id("my-comp", "component"), "_component_my_comp");
    assert_eq!(to_valid_asset_id("Foo.Bar", "directive"), "_directive_Foo46Bar");
    assert_eq!(to_valid_asset_id("a_b9", "filter"), "_filter_a_b9");
    assert_eq!(to_valid_asset_id("ü", "component"), "_component_252");
}

#[test]
fn asset_url_kinds() {
    assert_eq!(strip_prefix("~/assets/a.png"), "assets/a.png");
    assert_eq!(strip_prefix("~assets/a.png"), "assets/a.png");
    assert_eq!(strip_prefix("./a.png"), "./a.png");
    assert!(is_relative_url("./a.png"));
    assert!(is_relative_url("~a.png"));
    assert!(is_relative_url("@/a.png"));
    assert!(!is_relative_url("a.png"));
    assert!(!is_relative_url(""));
    assert!(is_external_url("http://x"));
    assert!(is_external_url("https://x"));
    assert!(is_external_url("//cdn/x"));
    assert!(!is_external_url("/local"));
    assert!(is_data_url("  data:image/png;base64,AA"));
    assert!(!is_data_url("dat:"));
}

#[test]
fn resolves_bindings_by_case() {
    let mut helper = BindingsHelper::default();
    helper.setup_bindings = vec![
        SetupBinding { sym: "TestComponent".to_string(), binding_type: BindingTypes::SetupConst },
        SetupBinding { sym: "testComponent".to_string(), binding_type: BindingTypes::SetupConst },
    ];
    assert_eq!(find_binding(&helper, "test-component").map(|b| b.sym.as_str()), Some("TestComponent"));
    assert_eq!(find_binding(&helper, "testComponent").map(|b| b.sym.as_str()), Some("TestComponent"));
    assert!(find_binding(&helper, "unresolved-component").is_none());
    let mut camel_only = BindingsHelper::default();
    camel_only.setup_bindings.push(SetupBinding { sym: "fooBar".to_string(), binding_type: BindingTypes::SetupConst });
    assert_eq!(find_binding(&camel_only, "foo-bar").map(|b| b.sym.as_str()), Some("fooBar"));
}

#[test]
fn element_and_prop_rules() {
    assert!(is_component_tag(&tag("component")));
    assert!(is_component_tag(&tag("Component")));
    assert!(!is_component_tag(&tag("div")));
    assert!(is_on("onClick"));
    assert!(!is_on("onclick"));
    assert!(!is_on("on"));
    assert!(is_reserved_prop("key"));
    assert!(is_reserved_prop("onVnodeMounted"));
    assert!(!is_reserved_prop("onClick"));
}

#[test]
fn scope_snapshot_round_trip() {
    let mut ctx = TransformSfcContext {
        bindings_helper: BindingsHelper::default(),
        directive_scopes: DirectiveScopes { v_for: 2, v_slot: 1 },
    };
    let mut element = ElementNode { starting_tag: tag("div"), children: vec![], template_scope: 9 };
    let mut current_scope = 4u32;
    let mut v_for_scope = true;
    let snapshot = enter_element_scope(&mut ctx, &mut element, &mut current_scope, &mut v_for_scope);
    assert_eq!(element.template_scope, 4);
    assert_eq!(snapshot.parent_scope, 4);

    // Something changes the state inside the element
    ctx.directive_scopes = DirectiveScopes { v_for: 5, v_slot: 7 };
    current_scope = 12;
    v_for_scope = false;

    restore_element_scope_snapshot(&mut ctx, snapshot, &mut current_scope, &mut v_for_scope);
    assert_eq!(ctx.directive_scopes, DirectiveScopes { v_for: 2, v_slot: 1 });
    assert_eq!(current_scope, 4);
    assert!(v_for_scope);

    let mut flag = false;
    let saved = save_element_scope_snapshot(&mut ctx, 3, &mut flag);
    assert_eq!((saved.parent_scope, saved.old_v_for_scope, saved.old_directive_v_for, saved.old_directive_v_slot), (3, false, 2, 1));
}

#[test]
fn modifiers_are_sorted_out() {
    let r = resolve_modifiers(&static_key("onClick"), &strings(&["stop", "right", "once", "enter", "capture"]));
    assert_eq!(r.key_modifiers, strings(&["enter"]));
    assert_eq!(r.non_key_modifiers, strings(&["stop", "right"]));
    assert_eq!(r.event_option_modifiers, strings(&["once", "capture"]));

    let r = resolve_modifiers(&static_key("onKeyup"), &strings(&["left", "exact"]));
    assert_eq!(r.key_modifiers, strings(&["left"]));
    assert_eq!(r.non_key_modifiers, strings(&["exact"]));

    let r = resolve_modifiers(&HandlerKey::Compound, &strings(&["left"]));
    assert_eq!(r.key_modifiers, strings(&["left"]));
    assert_eq!(r.non_key_modifiers, strings(&["left"]));
}

#[test]
fn option_postfix_capitalizes() {
    assert_eq!(options_postfix(&strings(&["once", "capture"])), "OnceCapture");
    assert_eq!(options_postfix(&strings(&[])), "");
}

#[test]
fn static_click_right_becomes_contextmenu() {
    let plan = plan_v_on_modifiers(static_key("onClick"), &strings(&["right"]));
    match plan.key {
        HandlerKey::Simple { sym, is_static } => {
            assert_eq!(sym, "onContextmenu");
            assert!(is_static);
        }
        HandlerKey::Compound => panic!("static key expected"),
    }
    assert_eq!(plan.with_modifiers, strings(&["right"]));
    assert!(plan.with_keys.is_none());
    assert!(plan.click_remaps.is_empty());
}

#[test]
fn static_click_middle_becomes_mouseup() {
    let plan = plan_v_on_modifiers(static_key("onClick"), &strings(&["middle"]));
    assert!(matches!(plan.key, HandlerKey::Simple { ref sym, .. } if sym == "onMouseup"));
    assert_eq!(plan.with_modifiers, strings(&["middle"]));
}

#[test]
fn keyboard_guards_and_options() {
    let plan = plan_v_on_modifiers(static_key("onKeydown"), &strings(&["stop", "capture", "ctrl", "a"]));
    assert!(matches!(plan.key, HandlerKey::Simple { ref sym, is_static: true } if sym == "onKeydownCapture"));
    assert_eq!(plan.with_modifiers, strings(&["stop", "ctrl"]));
    assert_eq!(plan.with_keys, Some(strings(&["a"])));
    assert_eq!(plan.postfix, "Capture");
}

#[test]
fn unknown_modifier_guards_only_keyboard_events() {
    let plan = plan_v_on_modifiers(static_key("onKeyup"), &strings(&["custom"]));
    assert_eq!(plan.with_keys, Some(strings(&["custom"])));
    let plan = plan_v_on_modifiers(static_key("onClick"), &strings(&["custom"]));
    assert!(plan.with_keys.is_none());
    assert!(plan.with_modifiers.is_empty());
}

#[test]
fn dynamic_keys_take_both_guards_and_compound_postfix() {
    let plan = plan_v_on_modifiers(HandlerKey::Simple { sym: "event".to_string(), is_static: false }, &strings(&["left", "once"]));
    assert_eq!(plan.with_modifiers, strings(&["left"]));
    // A dynamic identifier is not a keyboard event name
    assert!(plan.with_keys.is_none());
    assert!(matches!(plan.key, HandlerKey::Compound));
    assert_eq!(plan.postfix, "Once");

    let plan = plan_v_on_modifiers(HandlerKey::Compound, &strings(&["right", "middle"]));
    assert_eq!(plan.click_remaps, strings(&["onContextmenu", "onMouseup"]));
    assert_eq!(plan.with_keys, Some(strings(&["right"])));
    assert_eq!(plan.with_modifiers, strings(&["right", "middle"]));
}

#[test]
fn no_modifiers_no_change() {
    let plan = plan_v_on_modifiers(static_key("onFoo"), &strings(&[]));
    assert!(matches!(plan.key, HandlerKey::Simple { ref sym, is_static: true } if sym == "onFoo"));
    assert!(plan.with_modifiers.is_empty() && plan.with_keys.is_none() && plan.postfix.is_empty());
}

#[test]
fn which_attributes_are_asset_urls() {

    let img = strings(&["src"]);
    let all = strings(&["poster"]);
    assert!(is_asset_url(&img, &all, "src", "./a.png", false));
    assert!(is_asset_url(&img, &all, "poster", "~/a.png", false));
    assert!(!is_asset_url(&img, &all, "alt", "./a.png", false));
    assert!(!is_asset_url(&img, &all, "src", "  ", false));
    assert!(!is_asset_url(&img, &all, "src", "https://x/a.png", true));
    assert!(!is_asset_url(&img, &all, "src", "data:image/png,AA", true));
    assert!(!is_asset_url(&img, &all, "src", "#frag", true));
    assert!(!is_asset_url(&img, &all, "src", "/abs.png", false));
    assert!(is_asset_url(&img, &all, "src", "/abs.png", true));
}

#[test]
fn asset_urls_become_numbered_imports() {

    let mut imports: Vec<String> = vec![];
    let name_of = |r: AssetImport| match r {
        AssetImport::Import { name, hash } => (name, hash),
        AssetImport::Empty => ("".to_string(), None),
    };
    assert_eq!(name_of(asset_url_import("./a.png", &mut imports).unwrap()), ("_imports_0".to_string(), None));
    assert_eq!(name_of(asset_url_import("~/b.svg#icon", &mut imports).unwrap()), ("_imports_1".to_string(), Some("#icon".to_string())));
    // The same source is imported once
    assert_eq!(name_of(asset_url_import("./a.png#x", &mut imports).unwrap()), ("_imports_0".to_string(), Some("#x".to_string())));
    assert_eq!(imports, strings(&["./a.png", "b.svg"]));
    // The source is percent-decoded
    assert_eq!(name_of(asset_url_import("./my%20file.png", &mut imports).unwrap()).0, "_imports_2");
    assert_eq!(imports[2], "./my file.png");
    // Bytes that are not UTF-8 are refused
    assert!(asset_url_import("./%FF.png", &mut imports).is_err());
    assert_eq!(imports.len(), 3);
    assert!(matches!(asset_url_import("#only", &mut imports), Ok(AssetImport::Empty)));
    assert_eq!(split_hash("a#b#c"), ("a".to_string(), Some("#b#c".to_string())));
}
