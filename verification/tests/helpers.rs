use fervid::compiler::directives::{needs_directive_wrapper, supports_with_directive};
use fervid::parser::attributes::{HtmlAttribute, VDirective};
use fervid::parser::structs::{ElementKind, StartingTag};
use fervid::case::{to_camel_case, to_pascal_case};
use fervid::compiler::codegen::{CodegenContext, IsCustomElementParam};
use fervid::compiler::helper::CodeHelper;
use fervid::compiler::imports::VueImports;
use fervid::text::{push_decimal, str_contains, str_replace};

#[test]
fn replace_replaces_every_occurrence() {
    assert_eq!(str_replace("export default {} // export default ", "export default ", "const __sfc__ = "),
        "const __sfc__ = {} // const __sfc__ = ");
    assert_eq!(str_replace("aaa", "aa", "b"), "ba");
    assert_eq!(str_replace("nothing here", "zz", "y"), "nothing here");
    assert!(str_contains("hello world", "o w"));
    assert!(!str_contains("hello", "world"));
}

#[test]
fn decimals() {
    let mut buf = String::from("n=");
    push_decimal(&mut buf, 0);
    push_decimal(&mut buf, 1207);
    assert_eq!(buf, "n=01207");
    let mut max = String::new();
    push_decimal(&mut max, u64::MAX);
    assert_eq!(max, u64::MAX.to_string());
}

#[test]
fn dash_case_conversions() {
    let mut out = String::new();
    to_camel_case("foo-bar-baz", &mut out);
    assert_eq!(out, "fooBarBaz");
    let mut out = String::from(">");
    to_pascal_case("foo-bar-baz", &mut out);
    assert_eq!(out, ">FooBarBaz");
    let mut out = String::new();
    to_pascal_case("über-ß", &mut out);
    assert_eq!(out, "ÜberSS");
    let mut out = String::new();
    to_camel_case("--a", &mut out);
    assert_eq!(out, "A");
}

#[test]
fn code_helper_camelcase_and_escape() {
    let mut buf = String::new();
    CodeHelper::to_camelcase(&mut buf, "custom-event-name");
    assert_eq!(buf, "customEventName");
    assert!(!CodeHelper::needs_escape("foo"));
    assert!(!CodeHelper::needs_escape("foo1"));
    assert!(CodeHelper::needs_escape("1foo"));
    assert!(CodeHelper::needs_escape("foo-bar"));
    assert!(!CodeHelper::needs_escape(""));
}

#[test]
fn code_helper_objects() {
    let mut helper = CodeHelper::default();
    let mut buf = String::new();
    helper.obj_from_entries_iter(&mut buf, &[("foo", "true"), ("1bar", "false")], 2);
    assert_eq!(buf, "{\n  foo: true,\n  \"1bar\": false\n}");
    assert_eq!(helper.indent_level, 0);

    let mut buf = String::new();
    helper.obj_from_entries_iter(&mut buf, &[("only", "1")], 1);
    assert_eq!(buf, "{only: 1}");

    let mut buf = String::new();
    helper.obj_from_entries_iter(&mut buf, &[], 0);
    assert_eq!(buf, "{}");

    // A filtered iterator does not know its length in advance: its lower size hint is 0
    let all = [("a", "1"), ("x", ""), ("b", "2")];
    let filtered = all.iter().filter(|e| !e.1.is_empty());
    let hint = filtered.size_hint().0;
    let kept: Vec<(&str, &str)> = filtered.copied().collect();
    let mut buf = String::new();
    helper.obj_from_entries_iter(&mut buf, &kept, hint);
    assert_eq!(buf, "{a: 1, b: 2}");
    assert_eq!(helper.indent_level, 0);
}

#[test]
fn code_helper_lines() {
    let mut helper = CodeHelper::default();
    helper.indent();
    helper.indent();
    let mut buf = String::new();
    helper.newline(&mut buf);
    assert_eq!(buf, "\n    ");
    let mut buf = String::new();
    helper.newline_n(&mut buf, 3);
    assert_eq!(buf, "\n\n\n    ");
    let mut buf = String::new();
    helper.newline_n(&mut buf, 1);
    assert_eq!(buf, "");
    assert_eq!(helper.newline_size_hint(), 4);
    let mut buf = String::new();
    helper.comma_newline(&mut buf);
    CodeHelper::parens_option(&mut buf, Some("x"));
    CodeHelper::parens_option(&mut buf, None);
    CodeHelper::colon(&mut buf);
    CodeHelper::null(&mut buf);
    CodeHelper::quoted(&mut buf, "q");
    assert_eq!(buf, ",\n    (x)(): null\"q\"");
    helper.unindent();
    assert_eq!(helper.indent_level, 1);
}

#[test]
fn imports_are_listed_in_a_fixed_order() {
    let mut ctx = CodegenContext::new(IsCustomElementParam::NoCustomElements);
    assert_eq!(ctx.generate_imports_string(), "import {  } from \"vue\"");
    assert_eq!(ctx.get_and_add_import_str(VueImports::WithModifiers), "_withModifiers");
    ctx.add_to_imports(VueImports::CreateBlock);
    ctx.add_to_imports(VueImports::ToDisplayString);
    ctx.add_to_imports(VueImports::CreateBlock);
    assert_eq!(
        ctx.generate_imports_string(),
        "import { createBlock as _createBlock, toDisplayString as _toDisplayString, withModifiers as _withModifiers } from \"vue\""
    );
    assert_eq!(CodegenContext::get_import_str(VueImports::NormalizeClass), "_normalizeClass");
    assert_eq!(CodegenContext::get_import_mask_bit(VueImports::OpenBlock), 1u64 << 34);
    assert_eq!(CodegenContext::get_import_mask_bit(VueImports::CreateBlock), 1);
}

#[test]
fn directive_wrapper_for_any_directive_but_on_bind_slot() {
    let dir = |name: &str| {
        HtmlAttribute::VDirective(VDirective {
            name: name.to_string(),
            argument: String::new(),
            modifiers: vec![],
            value: None,
            is_dynamic_slot: false,
        })
    };
    let tag = |attrs: Vec<HtmlAttribute>| StartingTag { tag_name: "div".to_string(), attributes: attrs, is_self_closing: false, kind: ElementKind::Normal };
    assert!(needs_directive_wrapper(&tag(vec![dir("if")]), false));
    assert!(!needs_directive_wrapper(&tag(vec![dir("on"), dir("bind")]), false));
    assert!(needs_directive_wrapper(&tag(vec![dir("model")]), false));
    assert!(!needs_directive_wrapper(&tag(vec![dir("model")]), true));
    assert!(!supports_with_directive("slot", false));
    assert!(supports_with_directive("focus", true));
}
