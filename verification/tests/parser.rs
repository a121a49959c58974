use fervid::parser::attributes::{parse_attributes, HtmlAttribute};
use fervid::parser::html_utils::{is_space_char, is_valid_name_char, is_void_element};
use fervid::parser::structs::{ElementKind, ElementNode, Node, StartingTag};
use fervid::parser::tag::{classify_element_kind, parse_element_starting_tag, parse_node};
use fervid::templates::ast_optimizer::{is_blank, optimize_ast};

fn regular(attr: &HtmlAttribute) -> Option<(&str, &str)> {
    match attr {
        HtmlAttribute::Regular { name, value } => Some((name.as_str(), value.as_str())),
        HtmlAttribute::VDirective(_) => None,
    }
}

#[test]
fn parses_a_starting_tag_with_attributes() {
    let (rest, tag) = parse_element_starting_tag("<div class=\"a b\" @click.stop.prevent=\"go\" disabled>rest").unwrap();
    assert_eq!(rest, "rest");
    assert_eq!(tag.tag_name, "div");
    assert!(!tag.is_self_closing);
    assert_eq!(tag.kind, ElementKind::Normal);
    assert_eq!(tag.attributes.len(), 3);
    assert_eq!(regular(&tag.attributes[0]), Some(("class", "a b")));
    match &tag.attributes[1] {
        HtmlAttribute::VDirective(d) => {
            assert_eq!(d.name, "on");
            assert_eq!(d.argument, "click");
            assert_eq!(d.modifiers, vec!["stop".to_string(), "prevent".to_string()]);
            assert_eq!(d.value.as_deref(), Some("go"));
            assert!(!d.is_dynamic_slot);
        }
        HtmlAttribute::Regular { .. } => panic!("directive expected"),
    }
    // An attribute without a value takes its name as its value
    assert_eq!(regular(&tag.attributes[2]), Some(("disabled", "disabled")));
}

#[test]
fn parses_directive_forms() {
    let (rest, tag) = parse_node("<template v-model=\"x\" :title=\"t\" #[slotName] v-if:a />!", false).unwrap();
    assert_eq!(rest, "!");
    assert!(tag.is_self_closing);
    assert_eq!(tag.kind, ElementKind::Template);
    let directives: Vec<_> = tag
        .attributes
        .iter()
        .map(|a| match a {
            HtmlAttribute::VDirective(d) => (d.name.clone(), d.argument.clone(), d.value.clone(), d.is_dynamic_slot),
            HtmlAttribute::Regular { .. } => panic!("directive expected"),
        })
        .collect();
    assert_eq!(
        directives,
        vec![
            ("model".to_string(), "".to_string(), Some("x".to_string()), false),
            ("bind".to_string(), "title".to_string(), Some("t".to_string()), false),
            ("slot".to_string(), "slotName".to_string(), None, true),
            ("if".to_string(), "a".to_string(), None, false),
        ]
    );
}

#[test]
fn refuses_what_is_not_a_tag() {
    assert!(parse_element_starting_tag("div>").is_none());
    assert!(parse_element_starting_tag("<>").is_none());
    assert!(parse_element_starting_tag("<div").is_none());
    assert!(parse_element_starting_tag("<div class=\"a>").is_none());
}

#[test]
fn void_and_raw_text_kinds() {
    let (_, br) = parse_element_starting_tag("<br/>").unwrap();
    assert_eq!(br.kind, ElementKind::Void);
    assert!(br.is_self_closing);
    assert_eq!(classify_element_kind("script"), ElementKind::RawText);
    assert_eq!(classify_element_kind("textarea"), ElementKind::EscapableRawText);
    assert_eq!(classify_element_kind("svg"), ElementKind::Foreign);
    assert_eq!(classify_element_kind("section"), ElementKind::Normal);
    assert!(is_void_element("img"));
    assert!(!is_void_element("div"));
    assert!(is_space_char('\u{000C}'));
    assert!(!is_space_char('x'));
    assert!(is_valid_name_char('Q'));
    assert!(!is_valid_name_char('-'));
}

#[test]
fn attribute_list_stops_at_the_first_non_attribute() {
    let (rest, attrs) = parse_attributes(" a=\"1\"  b>");
    assert_eq!(rest, ">");
    assert_eq!(attrs.len(), 2);
    assert_eq!(regular(&attrs[1]), Some(("b", "b")));
}

fn el(tag: &str, children: Vec<Node>) -> Node {
    Node::ElementNode(ElementNode {
        starting_tag: StartingTag { tag_name: tag.to_string(), attributes: vec![], is_self_closing: false, kind: ElementKind::Normal },
        children,
        template_scope: 0,
    })
}

fn text(s: &str) -> Node {
    Node::TextNode(s.to_string())
}

#[test]
fn optimizer_trims_whitespace_at_the_edges() {
    let mut ast = vec![
        el("div", vec![text("  \n"), el("span", vec![text(" ")]), text(" x "), text("\t"), text(" ")]),
        text("   "),
    ];
    optimize_ast(&mut ast);
    assert_eq!(ast.len(), 2);
    match &ast[0] {
        Node::ElementNode(div) => {
            assert_eq!(div.children.len(), 2);
            match &div.children[0] {
                Node::ElementNode(span) => assert!(span.children.is_empty()),
                _ => panic!("span expected"),
            }
            match &div.children[1] {
                Node::TextNode(t) => assert_eq!(t, " x "),
                _ => panic!("text expected"),
            }
        }
        _ => panic!("element expected"),
    }
    // Top-level text is left alone
    assert!(matches!(&ast[1], Node::TextNode(t) if t == "   "));
    assert!(is_blank(" \u{3000}\n"));
    assert!(!is_blank(" a "));
}
