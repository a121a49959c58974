use fervid::compiler::codegen::{
    compile_sfc, compile_sfc_checked, compile_template, compile_template_checked, is_html_tag, CodegenContext,
    IsCustomElementParam,
};
use fervid::parser::attributes::{HtmlAttribute, VDirective};
use fervid::parser::structs::{ElementKind, ElementNode, Node, StartingTag};

fn element(tag: &str, attributes: Vec<HtmlAttribute>, children: Vec<Node>) -> Node {
    Node::ElementNode(ElementNode {
        starting_tag: StartingTag {
            tag_name: tag.to_string(),
            attributes,
            is_self_closing: false,
            kind: ElementKind::Normal,
        },
        children,
        template_scope: 0,
    })
}

fn text(s: &str) -> Node {
    Node::TextNode(s.to_string())
}

fn regular(name: &str, value: &str) -> HtmlAttribute {
    HtmlAttribute::Regular { name: name.to_string(), value: value.to_string() }
}

fn directive(name: &str, argument: &str, modifiers: &[&str], value: Option<&str>) -> HtmlAttribute {
    HtmlAttribute::VDirective(VDirective {
        name: name.to_string(),
        argument: argument.to_string(),
        modifiers: modifiers.iter().map(|m| m.to_string()).collect(),
        value: value.map(|v| v.to_string()),
        is_dynamic_slot: false,
    })
}

const RENDER_HEAD: &str = "function render(_ctx, _cache, $props, $setup, $data, $options) {\n  ";

fn hello_template() -> Node {
    element("template", vec![], vec![element("div", vec![], vec![text("Hello")])])
}

const HELLO_RENDER: &str = "import { createElementBlock as _createElementBlock, createElementVNode as _createElementVNode, openBlock as _openBlock } from \"vue\"\n\nfunction render(_ctx, _cache, $props, $setup, $data, $options) {\n  \n\n  return (_openBlock(), _createElementBlock(\"template\", null, [_createElementVNode(\"div\", null, \"Hello\", -1 /* HOISTED */)], -1 /* HOISTED */))\n}";

#[test]
fn compile_template_writes_imports_and_render_function() {
    assert_eq!(compile_template(&hello_template()), Ok(HELLO_RENDER.to_string()));
}

#[test]
fn compile_template_refuses_a_non_element() {
    assert_eq!(compile_template(&text("loose text")), Err(-1));
}

#[test]
fn compile_template_inlines_text_and_expressions() {
    let template = element(
        "template",
        vec![],
        vec![element(
            "span",
            vec![],
            vec![text("Hi "), Node::DynamicExpression { value: "name".to_string(), template_scope: 0 }],
        )],
    );
    let expected = format!(
        "import {{ createElementBlock as _createElementBlock, createElementVNode as _createElementVNode, openBlock as _openBlock, toDisplayString as _toDisplayString }} from \"vue\"\n\n{}\n\n  return (_openBlock(), _createElementBlock(\"template\", null, [_createElementVNode(\"span\", null, \"Hi \" + _toDisplayString(name), -1 /* HOISTED */)], -1 /* HOISTED */))\n}}",
        RENDER_HEAD
    );
    assert_eq!(compile_template(&template), Ok(expected));
}

#[test]
fn compile_template_escapes_quotes_and_trims_text() {
    let template = element("template", vec![], vec![element("p", vec![], vec![text("  say \"hi\"  ")])]);
    let compiled = compile_template(&template).unwrap();
    assert!(compiled.contains("_createElementVNode(\"p\", null, \" say \\\"hi\\\" \", -1 /* HOISTED */)"));
}

#[test]
fn compile_template_resolves_components() {
    let template = element("template", vec![], vec![element("my-comp", vec![], vec![])]);
    let expected = "import { createElementBlock as _createElementBlock, createVNode as _createVNode, openBlock as _openBlock } from \"vue\"\n\nfunction render(_ctx, _cache, $props, $setup, $data, $options) {\n  const _component_my_comp = _resolveComponent(\"my-comp\")\n\n  return (_openBlock(), _createElementBlock(\"template\", null, [_createVNode(_component_my_comp, null, {})], -1 /* HOISTED */))\n}";
    assert_eq!(compile_template(&template), Ok(expected.to_string()));
}

#[test]
fn compile_template_keeps_custom_elements_as_elements() {
    let template = element("template", vec![], vec![element("custom-el", vec![], vec![])]);
    let compiled = compile_template(&template).unwrap();
    assert!(compiled.contains("[_createElementVNode(\"custom-el\", null, null, -1 /* HOISTED */)]"));
    assert!(!compiled.contains("_component_"));
}

#[test]
fn compile_template_splits_mixed_children_over_lines() {
    let template = element("template", vec![], vec![text("a"), element("div", vec![], vec![])]);
    let compiled = compile_template(&template).unwrap();
    assert!(compiled.contains(
        "_createElementBlock(\"template\", null, [\n    _createTextVNode(\"a\", 1 /* TEXT */),\n    _createElementVNode(\"div\", null, null, -1 /* HOISTED */)\n  ], -1 /* HOISTED */))"
    ));
}

#[test]
fn compile_template_generates_attributes() {
    let template = element(
        "template",
        vec![],
        vec![element(
            "input",
            vec![regular("data-x", "1"), directive("bind", "value", &[], Some("msg")), directive("on", "input", &[], Some("update"))],
            vec![],
        )],
    );
    let compiled = compile_template(&template).unwrap();
    assert!(compiled.contains("_createElementVNode(\"input\", {\"data-x\": \"1\", value: msg, onInput: update}, null, -1 /* HOISTED */)"));
}

#[test]
fn compile_sfc_adds_an_empty_component_without_script() {
    let expected = format!("const __sfc__ = {{}}{}\n__sfc__.render = render\nexport default __sfc__", HELLO_RENDER);
    assert_eq!(compile_sfc(&[hello_template()]), Ok(expected));
}

#[test]
fn compile_sfc_uses_the_default_export_of_the_script() {
    let script = element("script", vec![], vec![text("export default {\n  name: 'TestComponent'\n}")]);
    let expected = format!(
        "const __sfc__ = {{\n  name: 'TestComponent'\n}}{}\n__sfc__.render = render\nexport default __sfc__",
        HELLO_RENDER
    );
    assert_eq!(compile_sfc(&[hello_template(), script]), Ok(expected));
}

#[test]
fn compile_sfc_uses_a_script_in_js_or_ts() {
    for lang in ["js", "ts"] {
        let script = element("script", vec![regular("lang", lang)], vec![text("export default {}")]);
        assert_eq!(compile_sfc(&[script]), Ok("const __sfc__ = {}\nexport default __sfc__".to_string()));
    }
}

#[test]
fn compile_sfc_ignores_a_script_in_another_language() {
    let script = element("script", vec![regular("lang", "coffee")], vec![text("export default {}")]);
    let expected = format!("const __sfc__ = {{}}{}\n__sfc__.render = render\nexport default __sfc__", HELLO_RENDER);
    assert_eq!(compile_sfc(&[hello_template(), script]), Ok(expected));
}

#[test]
fn compile_sfc_ignores_a_template_in_another_language() {
    let pug = element("template", vec![regular("lang", "pug")], vec![]);
    assert_eq!(compile_sfc(&[pug]), Err(-1000));
}

#[test]
fn compile_sfc_without_blocks_fails() {
    assert_eq!(compile_sfc(&[]), Err(-1000));
    assert_eq!(compile_sfc(&[text("stray")]), Err(-1000));
}

#[test]
fn compile_sfc_script_only() {
    let script = element("script", vec![], vec![text("export default { a: 1 }")]);
    assert_eq!(compile_sfc(&[script]), Ok("const __sfc__ = { a: 1 }\nexport default __sfc__".to_string()));
}

#[test]
fn compile_sfc_results_end_with_the_export() {
    let script = element("script", vec![], vec![text("export default {}")]);
    for blocks in [vec![hello_template()], vec![script]] {
        let out = compile_sfc(&blocks).unwrap();
        assert!(out.ends_with("\nexport default __sfc__"));
    }
}

#[test]
fn html_tags_are_known() {
    assert!(is_html_tag("div"));
    assert!(is_html_tag("template"));
    assert!(!is_html_tag("my-comp"));
}

#[test]
fn hoisting_rules() {
    let ctx = CodegenContext::new(IsCustomElementParam::NoCustomElements);
    assert!(ctx.can_be_hoisted(&element("div", vec![regular("class", "a")], vec![element("span", vec![], vec![text("text")])])));
    assert!(!ctx.can_be_hoisted(&element("button", vec![directive("bind", "disabled", &[], Some("isDisabled"))], vec![text("text")])));
    assert!(!ctx.can_be_hoisted(&element("span", vec![], vec![Node::DynamicExpression { value: "text".to_string(), template_scope: 0 }])));
    assert!(!ctx.can_be_hoisted(&element("MyComp", vec![], vec![])));
}

#[test]
fn hoists_are_numbered() {
    let mut ctx = CodegenContext::new(IsCustomElementParam::NoCustomElements);
    assert_eq!(ctx.add_to_hoists("a".to_string()), "_hoisted_1");
    assert_eq!(ctx.add_to_hoists("b".to_string()), "_hoisted_2");
    assert_eq!(ctx.hoists[0], "const _hoisted_1 = /*#__PURE__*/ a");
}

fn dynamic(value: &str) -> Node {
    Node::DynamicExpression { value: value.to_string(), template_scope: 0 }
}

#[test]
fn synthetic_component_compiles() {
    let template = element(
        "template",
        vec![],
        vec![element(
            "span",
            vec![regular("class", "yes")],
            vec![
                text("Hello world"),
                dynamic("testRef"),
                text("yes yes"),
                element("i", vec![], vec![text("italics, mm"), dynamic("hey")]),
                element("CustomComponent", vec![], vec![text("italics, mm"), dynamic("hey")]),
                text("end of span node"),
            ],
        )],
    );
    let script = element("script", vec![regular("lang", "js")], vec![text("export default {\n  name: 'TestComponent'\n}")]);
    let out = compile_sfc(&[template, script]).unwrap();
    assert!(out.starts_with("const __sfc__ = {\n  name: 'TestComponent'\n}import { "));
    assert!(out.contains("\n  const _component_CustomComponent = _resolveComponent(\"CustomComponent\")\n"));
    assert!(out.contains(&[
        "\n  return (_openBlock(), _createElementBlock(\"template\", null, [_createElementVNode(\"span\", {class: \"yes\"}, [\n",
        "    _createTextVNode(\"Hello world\" + _toDisplayString(testRef) + \"yes yes\", 1 /* TEXT */),\n",
        "    _createElementVNode(\"i\", null, \"italics, mm\" + _toDisplayString(hey), -1 /* HOISTED */),\n",
        "    _createVNode(_component_CustomComponent, null, {default: _withCtx(() => [_createTextVNode(\"italics, mm\" + _toDisplayString(hey), 1 /* TEXT */)])}),\n",
        "    _createTextVNode(\"end of span node\", 1 /* TEXT */)\n",
        "  ], -1 /* HOISTED */)], -1 /* HOISTED */))\n}\n__sfc__.render = render\nexport default __sfc__",
    ]
    .concat()));
}

fn compiled_return(template: Node) -> String {
    let out = compile_template(&template).unwrap();
    let start = out.find("return ").unwrap() + "return ".len();
    out[start..out.len() - 2].to_string()
}

fn in_template(node: Node) -> Node {
    element("template", vec![], vec![node])
}

const BLOCK_OPEN: &str = "(_openBlock(), _createElementBlock(\"template\", null, [";
const BLOCK_CLOSE: &str = "], -1 /* HOISTED */))";

#[test]
fn v_model_wraps_the_element_in_directives() {
    let input = element("input", vec![directive("model", "", &[], Some("msg"))], vec![]);
    assert_eq!(
        compiled_return(in_template(input)),
        format!("{}_withDirectives(_createElementVNode(\"input\", null, null, -1 /* HOISTED */), [\n    [_vModelText, _ctx.msg]\n  ]){}", BLOCK_OPEN, BLOCK_CLOSE)
    );
    let checkbox = element("input", vec![regular("type", "checkbox"), directive("model", "", &[], Some("on"))], vec![]);
    assert!(compiled_return(in_template(checkbox)).contains("[_vModelCheckbox, _ctx.on]"));
    let select = element("select", vec![directive("model", "", &[], Some("choice"))], vec![]);
    assert!(compiled_return(in_template(select)).contains("[_vModelSelect, _ctx.choice]"));
}

#[test]
fn custom_directives_list_argument_and_modifiers() {
    let div = element("div", vec![directive("focus", "arg", &["lazy"], None)], vec![]);
    assert_eq!(
        compiled_return(in_template(div)),
        format!(
            "{}_withDirectives(_createElementVNode(\"div\", null, null, -1 /* HOISTED */), [\n    [\n      _directive_focus,\n      void 0,\n      \"arg\",\n      {{lazy: true}}\n    ]\n  ]){}",
            BLOCK_OPEN, BLOCK_CLOSE
        )
    );
}

#[test]
fn slot_outlets_render_slots() {
    let named = element("slot", vec![regular("name", "header")], vec![]);
    assert_eq!(compiled_return(in_template(named)), format!("{}_renderSlot(_ctx.$slots, \"header\"){}", BLOCK_OPEN, BLOCK_CLOSE));
    let fallback_only = element("slot", vec![], vec![text("fallback")]);
    assert_eq!(compiled_return(in_template(fallback_only)), format!("{}_renderSlot(_ctx.$slots, \"default\"){}", BLOCK_OPEN, BLOCK_CLOSE));
    let full = element("slot", vec![regular("foo", "bar")], vec![text("fallback")]);
    assert_eq!(
        compiled_return(in_template(full)),
        format!(
            "{}_renderSlot(_ctx.$slots, \"default\", {{foo: \"bar\"}}, () => [_createTextVNode(\"fallback\", 1 /* TEXT */)]){}",
            BLOCK_OPEN, BLOCK_CLOSE
        )
    );
}

#[test]
fn components_get_named_and_default_slots() {
    let comp = element(
        "my-comp",
        vec![],
        vec![element("template", vec![directive("slot", "header", &[], Some("p"))], vec![dynamic("p.x")]), text("text")],
    );
    let out = compiled_return(in_template(comp));
    assert!(out.contains(
        "_createVNode(_component_my_comp, null, {\"header\": _withCtx((p) => [_createTextVNode(_toDisplayString(p.x), 1 /* TEXT */)]), default: _withCtx(() => ["
    ));
}

#[test]
fn component_attributes_are_generated() {
    let comp = element("my-comp", vec![directive("bind", "title", &[], Some("t")), directive("on", "save", &["stop"], Some("onSave"))], vec![]);
    let out = compile_template(&in_template(comp)).unwrap();
    assert!(out.contains("_createVNode(_component_my_comp, {title: t, onSave: _withModifiers(onSave, [\"stop\"])}, {})"));
    assert!(out.starts_with("import { createElementBlock as _createElementBlock, createVNode as _createVNode, openBlock as _openBlock, withModifiers as _withModifiers } from \"vue\""));
}

#[test]
fn a_component_used_twice_is_resolved_once() {
    let template = element("template", vec![], vec![element("my-comp", vec![], vec![]), element("my-comp", vec![], vec![]), element("other-comp", vec![], vec![])]);
    let out = compile_template(&template).unwrap();
    assert_eq!(out.matches("_resolveComponent(\"my-comp\")").count(), 1);
    assert!(out.contains("  const _component_my_comp = _resolveComponent(\"my-comp\")\n  const _component_other_comp = _resolveComponent(\"other-comp\")\n"));
    assert_eq!(out.matches("_createVNode(_component_my_comp, null, {})").count(), 2);
}

#[test]
fn test_attributes_generation() {
    let initial_buf = "fn(arg1, ";
    let mut buf = String::from(initial_buf);
    let mut ctx = CodegenContext::new(IsCustomElementParam::NoCustomElements);

    let attributes = vec![
        directive("test", "", &[], None),
        regular("class", "test"),
        regular("readonly", ""),
        regular("style", "background: red"),
        regular("dashed-attr-name", "spaced attr value"),
    ];

    ctx.generate_attributes(&mut buf, &attributes, true);
    assert_eq!(
        &buf,
        &format!(r#"{initial_buf}{{class: "test", readonly: "", style: "background: red", "dashed-attr-name": "spaced attr value"}}"#)
    );
}

#[test]
fn plain_and_bound_class_are_merged_at_the_end() {
    let mut buf = String::new();
    let mut ctx = CodegenContext::new(IsCustomElementParam::NoCustomElements);
    let attributes = vec![
        regular("class", "a"),
        directive("bind", "class", &[], Some("b")),
        directive("bind", "style", &[], Some("s")),
        regular("id", "x"),
    ];
    assert!(ctx.generate_attributes(&mut buf, &attributes, true));
    assert_eq!(buf, "{id: \"x\", class: _normalizeClass([\"a\", b])}");
}

#[test]
fn attributes_without_work_write_nothing() {
    let mut buf = String::from("x");
    let mut ctx = CodegenContext::new(IsCustomElementParam::NoCustomElements);
    let attributes = vec![directive("if", "", &[], Some("ok"))];
    assert!(!ctx.generate_attributes(&mut buf, &attributes, true));
    assert_eq!(buf, "x");
}

#[test]
fn checked_compilation_refuses_v_model_on_a_div() {
    let bad = element("template", vec![], vec![element("div", vec![directive("model", "", &[], Some("x"))], vec![])]);
    assert!(compile_template_checked(&bad).is_none());
    assert!(compile_sfc_checked(&[bad]).is_none());
    let good = element("template", vec![], vec![element("input", vec![directive("model", "", &[], Some("msg"))], vec![])]);
    assert_eq!(compile_template_checked(&good), Some(compile_template(&good)));
    assert_eq!(compile_sfc_checked(&[hello_template()]), Some(compile_sfc(&[hello_template()])));
}

#[test]
fn plain_attributes_appear_once_each_in_order() {
    let mut buf = String::new();
    let mut ctx = CodegenContext::new(IsCustomElementParam::NoCustomElements);
    let attributes = vec![regular("id", "x"), regular("title", "a b"), regular("data-k", "1")];
    assert!(ctx.generate_attributes(&mut buf, &attributes, true));
    assert_eq!(buf, "{id: \"x\", title: \"a b\", \"data-k\": \"1\"}");
}
