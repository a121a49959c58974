use fervid::parser::attributes::{HtmlAttribute, VDirective};
use fervid::parser::structs::{ElementKind, ElementNode, Node, StartingTag};
use fervid::transform::whitespace::transform_whitespace;

fn el(tag: &str, attributes: Vec<HtmlAttribute>) -> Node {
    Node::ElementNode(ElementNode {
        starting_tag: StartingTag { tag_name: tag.to_string(), attributes, is_self_closing: false, kind: ElementKind::Normal },
        children: vec![],
        template_scope: 0,
    })
}

fn text(s: &str) -> Node {
    Node::TextNode(s.to_string())
}

fn slot(name: &str) -> HtmlAttribute {
    HtmlAttribute::VDirective(VDirective {
        name: "slot".to_string(),
        argument: name.to_string(),
        modifiers: vec![],
        value: None,
        is_dynamic_slot: false,
    })
}

fn describe(nodes: &[Node]) -> Vec<String> {
    nodes
        .iter()
        .map(|n| match n {
            Node::ElementNode(e) => e.starting_tag.tag_name.clone(),
            Node::TextNode(t) => format!("'{}'", t),
            Node::CommentNode(c) => format!("<!--{}-->", c),
            Node::DynamicExpression { value, .. } => format!("{{{{{}}}}}", value),
        })
        .collect()
}

#[test]
fn whitespace_between_elements_is_removed() {
    let mut children = vec![
        text("  "),
        el("a", vec![]),
        text(" \n "),
        Node::CommentNode("c".to_string()),
        text(" "),
        Node::DynamicExpression { value: "x".to_string(), template_scope: 0 },
        text(" "),
        el("b", vec![]),
        text("\t"),
    ];
    transform_whitespace(&mut children, false);
    assert_eq!(describe(&children), vec!["a", "<!--c-->", "' '", "{{x}}", "' '", "b"]);
}

#[test]
fn component_named_slots_come_first() {
    let mut children = vec![
        text("default text"),
        el("template", vec![slot("header")]),
        el("span", vec![]),
        el("template", vec![slot("footer")]),
        el("template", vec![slot("default")]),
    ];
    transform_whitespace(&mut children, true);
    assert_eq!(describe(&children), vec!["template", "template", "'default text'", "span", "template"]);
    match (&children[0], &children[1]) {
        (Node::ElementNode(a), Node::ElementNode(b)) => {
            assert!(matches!(&a.starting_tag.attributes[0], HtmlAttribute::VDirective(d) if d.argument == "header"));
            assert!(matches!(&b.starting_tag.attributes[0], HtmlAttribute::VDirective(d) if d.argument == "footer"));
        }
        _ => panic!("named slots first"),
    }
}

#[test]
fn a_lone_whitespace_child_is_removed() {
    let mut children = vec![text("   ")];
    transform_whitespace(&mut children, false);
    assert!(children.is_empty());
    let mut children: Vec<Node> = vec![];
    transform_whitespace(&mut children, true);
    assert!(children.is_empty());
}
